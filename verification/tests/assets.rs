use anim_state_machine::assets::{
    ends_with, path_prefix, source_row, texture_description, texture_image,
};

#[test]
fn ends_with_agrees_with_std() {
    for (text, suffix) in [
        ("", ""),
        ("a", ""),
        ("", "a"),
        ("abc", "bc"),
        ("abc", "abc"),
        ("abc", "xabc"),
        ("abc", "ab"),
        ("abcbc", "bc"),
        ("角色.anim_ske.json", ".anim_ske.json"),
        ("角色", "色"),
        ("角色", "角"),
    ] {
        assert_eq!(ends_with(text, suffix), text.ends_with(suffix), "{:?} {:?}", text, suffix);
    }
}

#[test]
fn prefix_of_a_skeleton_path() {
    assert_eq!(path_prefix("animation/player01.anim_ske.json"), "animation/player01");
    assert_eq!(path_prefix("角色/主角.anim_ske.json"), "角色/主角");
    assert_eq!(path_prefix(".anim_ske.json"), "");
}

#[test]
fn prefix_of_another_path_is_empty() {
    assert_eq!(path_prefix("animation/player01.json"), "");
    assert_eq!(path_prefix("animation/player01.anim_ske.json.bak"), "");
    assert_eq!(path_prefix(""), "");
}

#[test]
fn texture_paths() {
    assert_eq!(texture_description("animation/player01"), "animation/player01_tex.json");
    assert_eq!(texture_image("animation/player01"), "animation/player01_tex.png");
    assert_eq!(texture_description(""), "_tex.json");
    assert_eq!(texture_image(""), "_tex.png");
}

#[test]
fn rows_of_an_orthogonal_map_are_counted_from_the_other_end() {
    assert_eq!(source_row(true, 30, 4, 0), 29);
    assert_eq!(source_row(true, 30, 4, 29), 0);
    assert_eq!(source_row(true, 1, 0, 0), 0);
}

#[test]
fn rows_of_other_maps_have_the_number_of_the_column() {
    assert_eq!(source_row(false, 30, 4, 0), 4);
    assert_eq!(source_row(false, 30, 7, 29), 7);
    assert_eq!(source_row(false, 0, 7, 0), 7);
    assert_eq!(source_row(false, 3, 2, 3), 2);
}
