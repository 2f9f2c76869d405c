use adjust_pivot::alias::{get_effect_name, get_last_object_index};
use adjust_pivot::coord::Coord;
use adjust_pivot::effect::{
    coord_item_edits, insertion_plan, object_section_header, plan_effect_insertion, EffectPlan,
    EnsureEffectError, EFFECT_ALIAS, EFFECT_NAME,
};

const ALIAS: &str = "[Object]\nlayer=1\n[Object.0]\neffect.name=図形\n[Object.1]\neffect.name=標準描画\nX=0.00";

#[test]
fn effect_constants() {
    assert_eq!(EFFECT_NAME, "中心ずらし_A");
    assert!(EFFECT_ALIAS.starts_with("\neffect.name=中心ずらし_A\n位置=中心\n"));
    assert!(EFFECT_ALIAS.ends_with("その他.hide=1\nPI="));
}

#[test]
fn section_header_text() {
    assert_eq!(object_section_header(2), "\n[Object.2]");
    assert_eq!(object_section_header(10), "\n[Object.10]");
}

#[test]
fn plan_keeps_object_with_effect() {
    assert_eq!(plan_effect_insertion(ALIAS, 1, EFFECT_ALIAS), Ok(EffectPlan::AlreadyPresent));
    assert_eq!(plan_effect_insertion("", 2, EFFECT_ALIAS), Ok(EffectPlan::AlreadyPresent));
}

#[test]
fn plan_recreates_with_next_section() {
    let expected = format!("{}\n[Object.2]{}", ALIAS, EFFECT_ALIAS);
    assert_eq!(
        plan_effect_insertion(ALIAS, 0, EFFECT_ALIAS),
        Ok(EffectPlan::Recreate(expected.clone()))
    );
    // The new alias keeps its first effect and ends with the new section.
    assert_eq!(get_effect_name(&expected), Some("図形".to_string()));
    assert_eq!(get_last_object_index(&expected), Some(2));
}

#[test]
fn plan_without_sections_uses_index_one() {
    let alias = "[Object.0]\neffect.name=図形";
    assert_eq!(
        insertion_plan(alias, 0, None, "X"),
        Ok(EffectPlan::Recreate(format!("{}\n[Object.1]X", alias)))
    );
}

#[test]
fn plan_errors_without_effect_name() {
    assert_eq!(
        plan_effect_insertion("[Object.1]\neffect.name=a", 0, EFFECT_ALIAS),
        Err(EnsureEffectError::EffectNameNotFound)
    );
    assert_eq!(EnsureEffectError::EffectNameNotFound.message(), "effect name not found");
}

#[test]
fn plan_skips_excluded_effects() {
    let alias = "[Object.0]\neffect.name=カメラ制御\n";
    assert_eq!(plan_effect_insertion(alias, 0, EFFECT_ALIAS), Ok(EffectPlan::Excluded));
}

#[test]
fn plan_reports_index_overflow() {
    let alias = format!("[Object.0]\neffect.name=図形\n[Object.{}]\n", usize::MAX);
    assert_eq!(
        plan_effect_insertion(&alias, 0, EFFECT_ALIAS),
        Err(EnsureEffectError::IndexOverflow)
    );
    assert_eq!(EnsureEffectError::IndexOverflow.message(), "object index overflow");
}

#[test]
fn insertion_plan_with_given_index() {
    assert_eq!(
        insertion_plan(ALIAS, 0, Some(41), "Y"),
        Ok(EffectPlan::Recreate(format!("{}\n[Object.42]Y", ALIAS)))
    );
    assert_eq!(insertion_plan(ALIAS, 3, Some(41), "Y"), Ok(EffectPlan::AlreadyPresent));
}

#[test]
fn coord_edits_with_offset_reset() {
    let edits = coord_item_edits(Coord::RightBottom, true, 2);
    assert_eq!(edits.len(), 3);
    assert!(edits.iter().all(|e| e.effect_index == 1));
    assert_eq!((edits[0].item, edits[0].value), ("位置", "右下"));
    assert_eq!((edits[1].item, edits[1].value), ("オフセットX", "0"));
    assert_eq!((edits[2].item, edits[2].value), ("オフセットY", "0"));
}

#[test]
fn coord_edits_without_offset_reset() {
    let edits = coord_item_edits(Coord::Top, false, 1);
    assert_eq!(edits.len(), 1);
    assert_eq!(edits[0].effect_index, 0);
    assert_eq!((edits[0].item, edits[0].value), ("位置", "上"));
}
