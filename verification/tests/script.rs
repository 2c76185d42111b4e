use merge_mp4::script::build_concat_script;

fn paths(texts: &[&str]) -> Vec<String> {
    texts.iter().map(|t| t.to_string()).collect()
}

#[test]
fn the_script_has_one_record_per_path() {
    let script = build_concat_script(&paths(&["/videos/a.mp4", "/videos/b c.mp4"]));
    assert_eq!(script, Ok("file '/videos/a.mp4'\nfile '/videos/b c.mp4'\n".to_string()));
}

#[test]
fn the_script_keeps_the_order_of_the_paths() {
    let script = build_concat_script(&paths(&["/z.mp4", "/a.mp4", "/m.mp4"])).unwrap();
    let lines: Vec<&str> = script.lines().collect();
    assert_eq!(lines, vec!["file '/z.mp4'", "file '/a.mp4'", "file '/m.mp4'"]);
}

#[test]
fn the_script_of_no_paths_is_empty() {
    assert_eq!(build_concat_script(&paths(&[])), Ok(String::new()));
}

#[test]
fn a_path_may_be_written_twice() {
    let script = build_concat_script(&paths(&["/a.mp4", "/a.mp4"])).unwrap();
    assert_eq!(script, "file '/a.mp4'\nfile '/a.mp4'\n");
}

#[test]
fn a_path_with_a_quote_is_rejected() {
    assert_eq!(build_concat_script(&paths(&["/it's.mp4"])), Err(0));
    assert_eq!(build_concat_script(&paths(&["/a.mp4", "/b.mp4", "/c'.mp4"])), Err(2));
}

#[test]
fn the_first_path_with_a_quote_is_named() {
    assert_eq!(build_concat_script(&paths(&["/a.mp4", "/b'.mp4", "/c'.mp4"])), Err(1));
}

#[test]
fn other_characters_pass_unchanged() {
    let script = build_concat_script(&paths(&["/视频/\"双\" 引号.mp4"])).unwrap();
    assert_eq!(script, "file '/视频/\"双\" 引号.mp4'\n");
}
