use future_work::purse::dispatch::{
    config_path, editor_arg, editor_command, fallback_handler, plan_open, Associations, OpenPlan,
};

#[test]
fn associations_are_read_line_by_line() {
    let conf = "# comment\n\ntext/plain = org.gnome.TextEditor.desktop\n  image/png=feh.desktop  \nbroken line\n";
    let a = Associations::parse(conf);
    assert_eq!(a.lookup("text/plain").as_deref(), Some("org.gnome.TextEditor.desktop"));
    assert_eq!(a.lookup("image/png").as_deref(), Some("feh.desktop"));
    assert_eq!(a.lookup("broken line"), None);
    assert_eq!(a.lookup("application/pdf"), None);
}

#[test]
fn later_association_wins() {
    let a = Associations::parse("text/plain = a.desktop\ntext/plain = b.desktop");
    assert_eq!(a.lookup("text/plain").as_deref(), Some("b.desktop"));
}

#[test]
fn association_value_keeps_further_equals() {
    let a = Associations::parse("x/y = run=me.desktop");
    assert_eq!(a.lookup("x/y").as_deref(), Some("run=me.desktop"));
}

#[test]
fn empty_configuration_has_no_associations() {
    let a = Associations::parse("");
    assert!(a.entries.is_empty());
}

#[test]
fn configuration_path() {
    assert_eq!(config_path(&Some("/cfg".to_string()), &None), "/cfg/purse/associations.conf");
    assert_eq!(config_path(&None, &Some("/home/u".to_string())), "/home/u/.config/purse/associations.conf");
}

#[test]
fn editor_defaults_to_lite_xl() {
    assert_eq!(editor_command(&None), "lite-xl");
    assert_eq!(editor_command(&Some("code -g".to_string())), "code -g");
}

#[test]
fn editor_arguments() {
    assert_eq!(editor_arg("/a.rs", 3, Some(7)), "/a.rs:3:7");
    assert_eq!(editor_arg("/a.rs", 3, None), "/a.rs:3");
}

#[test]
fn open_plans() {
    assert!(matches!(plan_open("/a.rs", Some(2), None), OpenPlan::Editor(a) if a == "/a.rs:2"));
    assert!(matches!(plan_open("/a.rs", None, Some(4)), OpenPlan::Handler));
}

#[test]
fn fallback_skips_own_invoker() {
    let ids = vec![Some("purse-niri.desktop".to_string()), None, Some("feh.desktop".to_string())];
    assert_eq!(fallback_handler(&ids), Some(1));
    let ids = vec![Some("purse-niri.desktop".to_string()), Some("feh.desktop".to_string())];
    assert_eq!(fallback_handler(&ids), Some(1));
    assert_eq!(fallback_handler(&vec![Some("purse-niri.desktop".to_string())]), None);
    assert_eq!(fallback_handler(&vec![]), None);
}

#[test]
fn law_last_association_wins_example() {
    let a = Associations::parse("a/b = one.desktop\nc/d = x.desktop\n# a/b = no.desktop\na/b = two.desktop\ne/f = y.desktop\n");
    assert_eq!(a.lookup("a/b").as_deref(), Some("two.desktop"));
    assert_eq!(a.lookup("c/d").as_deref(), Some("x.desktop"));
}
