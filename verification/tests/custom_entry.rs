use desktop_entry::{Entry, EntryFields, EntryFormatter, EntryType};

struct Game;

impl Entry for Game {
    // The model that proofs speak of; nothing calls it at run time.
    fn fields(&self) -> EntryFields {
        unreachable!()
    }

    fn entry_type(&self) -> EntryType {
        EntryType::Application
    }

    fn name(&self) -> &str {
        "Game"
    }

    fn exec(&self) -> &str {
        "/usr/games/game --fullscreen"
    }

    fn icon(&self) -> Option<&str> {
        None
    }

    fn comment(&self) -> Option<&str> {
        Some("Plays")
    }

    fn terminal(&self) -> bool {
        true
    }
}

#[test]
fn formatter_writes_any_entry() {
    let text = EntryFormatter::new(&Game).render();
    assert_eq!(
        text,
        "[Desktop Entry]\nType=Application\nName=Game\nExec=/usr/games/game --fullscreen\nComment=Plays\nTerminal=true\n"
    );
}
