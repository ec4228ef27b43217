use focus_cwd::cwd::{Cwd, CwdError};

fn list(entries: &[&str]) -> Vec<String> {
    entries.iter().map(|s| s.to_string()).collect()
}

#[test]
fn executable_on_the_list_makes_a_priority_directory() {
    let tagged = Cwd::new("/home/a".to_string(), "/usr/bin/bash", &list(&["/usr/bin/bash"]));
    assert_eq!(tagged, Cwd::Priority("/home/a".to_string()));
}

#[test]
fn executable_is_compared_letter_for_letter() {
    let by_name = Cwd::new("/home/a".to_string(), "/usr/bin/bash", &list(&["bash"]));
    assert_eq!(by_name, Cwd::Regular("/home/a".to_string()));
    let by_case = Cwd::new("/home/a".to_string(), "/usr/bin/bash", &list(&["/usr/bin/Bash"]));
    assert_eq!(by_case, Cwd::Regular("/home/a".to_string()));
    let longer = Cwd::new("/home/a".to_string(), "/usr/bin/bash", &list(&["/usr/bin/bash "]));
    assert_eq!(longer, Cwd::Regular("/home/a".to_string()));
    let shorter = Cwd::new("/home/a".to_string(), "/usr/bin/bash", &list(&["/usr/bin/bas"]));
    assert_eq!(shorter, Cwd::Regular("/home/a".to_string()));
}

#[test]
fn any_entry_of_the_list_counts() {
    let commands = list(&["/usr/bin/vim", "/usr/bin/ssh", "/usr/bin/bash"]);
    assert!(Cwd::new("/a".to_string(), "/usr/bin/vim", &commands).is_priority());
    assert!(Cwd::new("/a".to_string(), "/usr/bin/ssh", &commands).is_priority());
    assert!(Cwd::new("/a".to_string(), "/usr/bin/bash", &commands).is_priority());
    assert!(!Cwd::new("/a".to_string(), "/usr/bin/zsh", &commands).is_priority());
}

#[test]
fn empty_list_makes_every_directory_regular() {
    let tagged = Cwd::new("/srv".to_string(), "/usr/bin/bash", &[]);
    assert_eq!(tagged, Cwd::Regular("/srv".to_string()));
    assert!(!tagged.is_priority());
}

#[test]
fn existing_directory_is_handed_on() {
    let regular = Cwd::Regular("/tmp".to_string());
    assert_eq!(regular.exists_or_err(true), Ok(Cwd::Regular("/tmp".to_string())));
    let priority = Cwd::Priority("/opt".to_string());
    assert_eq!(priority.exists_or_err(true), Ok(Cwd::Priority("/opt".to_string())));
}

#[test]
fn vanished_directory_is_an_error_that_names_it() {
    let regular = Cwd::Regular("/tmp/gone".to_string());
    assert_eq!(
        regular.exists_or_err(false),
        Err(CwdError::Vanished { path: "/tmp/gone".to_string() })
    );
    let priority = Cwd::Priority("/opt/gone".to_string());
    assert_eq!(
        priority.exists_or_err(false),
        Err(CwdError::Vanished { path: "/opt/gone".to_string() })
    );
}

#[test]
fn path_text_carries_no_tag() {
    let regular = Cwd::Regular("/home/a".to_string());
    let priority = Cwd::Priority("/home/a".to_string());
    assert_eq!(regular.as_ref(), "/home/a");
    assert_eq!(priority.as_ref(), "/home/a");
    assert_eq!(regular.into(), "/home/a".to_string());
    assert_eq!(priority.into(), "/home/a".to_string());
}

#[test]
fn only_a_priority_process_outranks_a_regular_child() {
    let regular = Cwd::Regular("/r".to_string());
    let priority = Cwd::Priority("/p".to_string());
    assert!(priority.outranks(&regular));
    assert!(!priority.outranks(&priority));
    assert!(!regular.outranks(&regular));
    assert!(!regular.outranks(&priority));
}
