use adjust_pivot::alias::{
    get_effect_name, get_last_object_index, is_excluded_effect, max_object_index,
};

const SAMPLE_ALIAS: &str = "[Object]\nlayer=1\nframe=0,99\n[Object.0]\neffect.name=図形\n図形の種類=円\n[Object.1]\neffect.name=標準描画\nX=0.00\n";

#[test]
fn effect_name_of_first_section() {
    assert_eq!(get_effect_name(SAMPLE_ALIAS), Some("図形".to_string()));
}

#[test]
fn effect_name_lines_are_trimmed() {
    let alias = "  [Object.0]  \r\n\t effect.name=テキスト \r\n";
    assert_eq!(get_effect_name(alias), Some("テキスト".to_string()));
}

#[test]
fn effect_name_only_in_object_zero() {
    let alias = "[Object.1]\neffect.name=標準描画\n[Object.0]\nX=1\n";
    assert_eq!(get_effect_name(alias), None);
    let alias = "effect.name=外\n[Object.0]\neffect.name=中\n";
    assert_eq!(get_effect_name(alias), Some("中".to_string()));
}

#[test]
fn effect_name_first_of_two() {
    let alias = "[Object.0]\neffect.name=一\neffect.name=二\n";
    assert_eq!(get_effect_name(alias), Some("一".to_string()));
}

#[test]
fn effect_name_empty_value_and_missing() {
    assert_eq!(get_effect_name("[Object.0]\neffect.name=\n"), Some(String::new()));
    assert_eq!(get_effect_name(""), None);
    assert_eq!(get_effect_name("[Object.0]\neffect.nam=x\n"), None);
}

#[test]
fn excluded_effects() {
    for name in [
        "オーディオバッファ",
        "カメラ制御",
        "グループ制御(音声)",
        "フィルタ効果",
        "音声ファイル",
        "時間制御(オブジェクト)",
    ] {
        assert!(is_excluded_effect(name), "{}", name);
    }
    for name in ["図形", "テキスト", "", "カメラ制御 ", "グループ制御(映像)"] {
        assert!(!is_excluded_effect(name), "{}", name);
    }
}

#[test]
fn last_object_index_of_sample() {
    assert_eq!(get_last_object_index(SAMPLE_ALIAS), Some(1));
}

#[test]
fn last_object_index_takes_largest() {
    let text = "[Object.3]\n[Object.10]\n[Object.2]\n";
    assert_eq!(get_last_object_index(text), Some(10));
}

#[test]
fn last_object_index_needs_header_at_line_start() {
    assert_eq!(get_last_object_index(" [Object.3]\n"), None);
    assert_eq!(get_last_object_index("[Object]\n[Object.]\n"), None);
    assert_eq!(get_last_object_index("[Object.4]trailing\n"), Some(4));
    assert_eq!(get_last_object_index("[Object.4\n"), None);
    assert_eq!(get_last_object_index(""), None);
}

#[test]
fn last_object_index_skips_unparsable() {
    assert_eq!(get_last_object_index("[Object.١]\n[Object.1]\n"), Some(1));
    assert_eq!(
        get_last_object_index("[Object.99999999999999999999999]\n[Object.5]\n"),
        Some(5)
    );
}

#[test]
fn max_object_index_of_captures() {
    let caps = vec![Some("3".to_string()), None, Some("12".to_string()), Some("x".to_string())];
    assert_eq!(max_object_index(&caps), Some(12));
    assert_eq!(max_object_index(&vec![None, None]), None);
    assert_eq!(max_object_index(&vec![]), None);
}

#[test]
fn new_header_becomes_last_index() {
    let caps = vec![Some("3".to_string()), Some("7".to_string())];
    let before = max_object_index(&caps).unwrap();
    let mut more = caps.clone();
    more.push(Some((before + 1).to_string()));
    assert_eq!(max_object_index(&more), Some(8));
}

#[test]
fn last_object_index_of_joined_texts() {
    let a = "[Object.0]\neffect.name=図形\n[Object.3]\nX=0";
    let b = "[Object.7]\nY=1\n[Object.2]";
    let joined = format!("{}\n{}", a, b);
    assert_eq!(get_last_object_index(a), Some(3));
    assert_eq!(get_last_object_index(b), Some(7));
    assert_eq!(get_last_object_index(&joined), Some(7));
    let joined = format!("{}\n{}", a, "Z=2");
    assert_eq!(get_last_object_index(&joined), Some(3));
}
