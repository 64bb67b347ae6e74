use holo::picker::choose_random_file;

#[test]
fn empty_listing_gives_none() {
    let files: Vec<String> = Vec::new();
    assert!(choose_random_file(&files).is_none());
}

#[test]
fn single_file_is_always_chosen() {
    let files = vec![String::from("img/only.png")];
    assert_eq!(choose_random_file(&files), Some(String::from("img/only.png")));
}

#[test]
fn chosen_file_is_a_member_of_the_listing() {
    let files = vec![
        String::from("img/a.png"),
        String::from("img/b.jpg"),
        String::from("img/c.gif"),
    ];
    for _ in 0..32 {
        let chosen = choose_random_file(&files).unwrap();
        assert!(files.contains(&chosen));
    }
}
