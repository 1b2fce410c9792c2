use oneko::outputs::Outputs;

#[test]
fn index_by_id_finds_first() {
    let mut o: Outputs<&str> = Outputs::new();
    o.push(7, "a");
    o.push(3, "b");
    o.push(7, "c");
    assert_eq!(o.index_by_id(7), Some(0));
    assert_eq!(o.index_by_id(3), Some(1));
    assert_eq!(o.index_by_id(9), None);
}

#[test]
fn current_output_defaults_to_first() {
    let mut o: Outputs<()> = Outputs::new();
    assert_eq!(o.current_index(), None);
    assert_eq!(o.active, None);
    o.push(4, ());
    o.push(5, ());
    assert_eq!(o.current_index(), Some(0));
    assert_eq!(o.active, Some(4));
    o.active = Some(5);
    assert_eq!(o.current_index(), Some(1));
    o.active = Some(6);
    assert_eq!(o.current_index(), None);
    assert_eq!(o.active, Some(6));
}

#[test]
fn removing_active_output_clears_it() {
    let mut o: Outputs<u8> = Outputs::new();
    o.push(1, 10);
    o.push(2, 20);
    o.active = Some(2);
    let r = o.remove(0);
    assert_eq!(r.output_id, 1);
    assert_eq!(r.surface, 10);
    assert_eq!(o.active, Some(2));
    let r = o.remove(0);
    assert_eq!(r.output_id, 2);
    assert_eq!(o.active, None);
    assert!(o.entries.is_empty());
}

#[test]
fn configuring_and_renaming() {
    let mut o: Outputs<u8> = Outputs::new();
    o.push(1, 10);
    o.push(2, 20);
    assert!(!o.any_configured());
    o.configure(1);
    assert!(o.any_configured());
    assert!(!o.entries[0].configured);
    assert!(o.entries[1].configured);
    assert_eq!(o.entries[1].surface, 20);
    o.set_id(0, 9);
    assert_eq!(o.entries[0].output_id, 9);
    assert_eq!(o.entries[0].surface, 10);
    assert_eq!(o.index_by_id(9), Some(0));
}
