use desktop_entry::{Args, Entry, EntryFormatter, EntryType, Output};

fn duke3d() -> Args {
    Args {
        name: "Duke Nukem".into(),
        command: "/home/username/eduke/eduke32 -j /home/username/eduke".into(),
        entry_type: None,
        icon: Some("/home/username/duke-round.png".into()),
        comment: Some("I'm all out of bubble gum.".into()),
        terminal: false,
        location: None,
    }
}

fn minimal() -> Args {
    Args {
        name: "Editor".into(),
        command: "/usr/bin/editor".into(),
        entry_type: None,
        icon: None,
        comment: None,
        terminal: false,
        location: None,
    }
}

#[test]
fn can_build_duke3d() {
    let args = duke3d();

    let actual = args.entry().render();
    let expected = "[Desktop Entry]\n\
                    Type=Application\n\
                    Name=Duke Nukem\n\
                    Exec=/home/username/eduke/eduke32 -j /home/username/eduke\n\
                    Icon=/home/username/duke-round.png\n\
                    Comment=I'm all out of bubble gum.\n\
                    Terminal=false\n";
    assert_eq!(actual, expected);
}

#[test]
fn minimal_entry_has_five_lines() {
    let text = minimal().entry().render();
    assert_eq!(
        text,
        "[Desktop Entry]\nType=Application\nName=Editor\nExec=/usr/bin/editor\nTerminal=false\n"
    );
    let lines: Vec<&str> = text.lines().collect();
    assert_eq!(lines.len(), 5);
    assert!(!lines.iter().any(|l| l.starts_with("Icon=")));
    assert!(!lines.iter().any(|l| l.starts_with("Comment=")));
}

#[test]
fn text_starts_with_header_and_ends_with_terminal() {
    let mut args = minimal();
    let text = args.entry().render();
    assert!(text.starts_with("[Desktop Entry]\n"));
    assert!(text.ends_with("Terminal=false\n"));
    assert!(!text.ends_with("\n\n"));

    args.terminal = true;
    let text = args.entry().render();
    assert!(text.starts_with("[Desktop Entry]\n"));
    assert!(text.ends_with("Terminal=true\n"));
    assert!(!text.ends_with("\n\n"));
}

#[test]
fn icon_line_only_with_icon() {
    let mut args = minimal();
    args.icon = Some("icon.png".into());
    let text = args.entry().render();
    assert_eq!(
        text,
        "[Desktop Entry]\nType=Application\nName=Editor\nExec=/usr/bin/editor\nIcon=icon.png\nTerminal=false\n"
    );
    assert!(text.lines().any(|l| l.starts_with("Icon=")));
    assert!(!text.lines().any(|l| l.starts_with("Comment=")));
}

#[test]
fn comment_line_only_with_comment() {
    let mut args = minimal();
    args.comment = Some("Edits text".into());
    let text = args.entry().render();
    assert_eq!(
        text,
        "[Desktop Entry]\nType=Application\nName=Editor\nExec=/usr/bin/editor\nComment=Edits text\nTerminal=false\n"
    );
    assert!(!text.lines().any(|l| l.starts_with("Icon=")));
    assert!(text.lines().any(|l| l.starts_with("Comment=")));
}

#[test]
fn lines_come_in_fixed_order() {
    let mut args = duke3d();
    args.terminal = true;
    let text = args.entry().render();
    let keys: Vec<&str> = text
        .lines()
        .skip(1)
        .map(|l| l.split('=').next().unwrap())
        .collect();
    assert_eq!(keys, vec!["Type", "Name", "Exec", "Icon", "Comment", "Terminal"]);
    assert_eq!(text.lines().next(), Some("[Desktop Entry]"));
}

#[test]
fn absent_type_is_application() {
    let args = minimal();
    assert_eq!(args.entry_type(), EntryType::Application);
    assert_eq!(args.entry().render().lines().nth(1), Some("Type=Application"));
}

#[test]
fn explicit_type_is_rendered() {
    let mut args = minimal();
    args.entry_type = Some(EntryType::Application);
    assert_eq!(args.entry_type(), EntryType::Application);
    assert_eq!(args.entry().render().lines().nth(1), Some("Type=Application"));
}

#[test]
fn empty_required_values_keep_their_lines() {
    let mut args = minimal();
    args.name = String::new();
    args.command = String::new();
    assert_eq!(
        args.entry().render(),
        "[Desktop Entry]\nType=Application\nName=\nExec=\nTerminal=false\n"
    );
}

#[test]
fn empty_optional_values_keep_their_lines() {
    let mut args = minimal();
    args.icon = Some(String::new());
    args.comment = Some(String::new());
    assert_eq!(
        args.entry().render(),
        "[Desktop Entry]\nType=Application\nName=Editor\nExec=/usr/bin/editor\nIcon=\nComment=\nTerminal=false\n"
    );
}

#[test]
fn values_are_copied_verbatim() {
    let mut args = minimal();
    args.name = "a=b [c] \\n \"q\"".into();
    args.comment = Some("two\nlines".into());
    assert_eq!(
        args.entry().render(),
        "[Desktop Entry]\nType=Application\nName=a=b [c] \\n \"q\"\nExec=/usr/bin/editor\nComment=two\nlines\nTerminal=false\n"
    );
}

#[test]
fn line_feed_in_a_value_can_start_a_stray_icon_line() {
    let mut args = minimal();
    args.name = "x\nIcon=y".into();
    let text = args.entry().render();
    assert!(args.icon.is_none());
    assert!(text.lines().any(|l| l.starts_with("Icon=")));
}

#[test]
fn accessors_hand_out_the_fields() {
    let args = duke3d();
    assert_eq!(args.name(), "Duke Nukem");
    assert_eq!(args.exec(), "/home/username/eduke/eduke32 -j /home/username/eduke");
    assert_eq!(args.icon(), Some("/home/username/duke-round.png"));
    assert_eq!(args.comment(), Some("I'm all out of bubble gum."));
    assert!(!args.terminal());

    let args = minimal();
    assert_eq!(args.icon(), None);
    assert_eq!(args.comment(), None);
}

#[test]
fn formatter_new_is_what_entry_gives() {
    let args = duke3d();
    assert_eq!(EntryFormatter::new(&args).render(), args.entry().render());
}

#[test]
fn output_goes_to_stdout_without_location() {
    let args = duke3d();
    let text = args.entry().render();
    assert_eq!(args.output(), Output::Stdout { text });
}

#[test]
fn output_goes_to_new_file_with_location() {
    let mut args = duke3d();
    args.location = Some("/tmp/duke.desktop".into());
    let text = args.entry().render();
    assert_eq!(
        args.output(),
        Output::NewFile { location: "/tmp/duke.desktop".into(), text }
    );
}
