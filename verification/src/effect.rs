use vstd::prelude::*;
use crate::alias::{
    effect_name_spec, lemma_effect_name_append, excluded_effect, get_effect_name, is_excluded_effect, last_object_index,
    last_object_index_spec, OBJECT_HEADER_PATTERN,
};
use crate::coord::{coord_label, Coord};
use crate::number::{decimal, push_decimal};
use crate::pattern::{compile_pattern, regex_compiles};

verus! {

/// The name of the effect that carries the pivot settings.
pub const EFFECT_NAME: &'static str = "中心ずらし_A";

/// The alias text of the pivot effect in its default state, appended after a new
/// `[Object.N]` header when the effect is added to an object.
pub const EFFECT_ALIAS: &'static str = "\neffect.name=中心ずらし_A\n位置=中心\nオフセットX=0.00\nオフセットY=0.00\nオブジェクトを移動=0\nその他.hide=1\nPI=";

/// What to do so that the focused object carries the pivot effect.
#[derive(Debug, PartialEq, Eq)]
pub enum EffectPlan {
    /// The object already has the effect: leave it as it is.
    AlreadyPresent,
    /// The object's first effect is one that never gets the pivot effect: leave it.
    Excluded,
    /// Replace the object by one created from this alias text, in the same layer and frames.
    Recreate(String),
}

/// Why the pivot effect could not be planned.
#[derive(Clone, Copy, Debug, PartialEq, Eq, Structural)]
pub enum EnsureEffectError {
    /// The alias text has no `effect.name=` line in its `[Object.0]` section.
    EffectNameNotFound,
    /// The largest section index is already `usize::MAX`, so no next index exists.
    IndexOverflow,
    /// The section header pattern was refused by the regular expression engine.
    PatternRejected,
}

impl EnsureEffectError {
    /// A short description of the error.
    pub fn message(&self) -> (s: &'static str)
        ensures
            *self == EnsureEffectError::EffectNameNotFound ==> s@ == "effect name not found"@,
            *self == EnsureEffectError::IndexOverflow ==> s@ == "object index overflow"@,
            *self == EnsureEffectError::PatternRejected ==> s@ == "object header pattern rejected"@,
    {
        match self {
            EnsureEffectError::EffectNameNotFound => "effect name not found",
            EnsureEffectError::IndexOverflow => "object index overflow",
            EnsureEffectError::PatternRejected => "object header pattern rejected",
        }
    }
}

/// The index of the section that a new effect gets, after `last`.
pub open spec fn next_index(last: Option<usize>) -> nat {
    match last {
        Some(i) => (i + 1) as nat,
        None => 1,
    }
}

/// The header line of section `index`, with the line break before it.
pub open spec fn section_header(index: nat) -> Seq<char> {
    "\n[Object."@ + decimal(index) + "]"@
}

/// The alias text after the pivot effect has been appended as a new last section.
pub open spec fn extended_alias(alias: Seq<char>, last: Option<usize>, effect_alias: Seq<char>) -> Seq<
    char,
> {
    alias + section_header(next_index(last)) + effect_alias
}

/// Whether the alias calls for a new section: the effect is missing, the first effect has a
/// name, and that name is not excluded.
pub open spec fn needs_new_section(alias: Seq<char>, effect_count: usize) -> bool {
    effect_count == 0 && effect_name_spec(alias) is Some && !excluded_effect(
        effect_name_spec(alias)->0,
    )
}

/// The header line `\n[Object.N]` of section `index`.
pub fn object_section_header(index: usize) -> (s: String)
    ensures
        s@ == section_header(index as nat),
{
    let mut s = String::new();
    s.append("\n[Object.");
    push_decimal(&mut s, index);
    s.append("]");
    s
}

/// Decides how to give an object the pivot effect, from its alias text, the number of
/// pivot effects it has, and the largest section index in the alias.
pub fn insertion_plan(alias: &str, effect_count: usize, last_index: Option<usize>, effect_alias: &str) -> (r:
    Result<EffectPlan, EnsureEffectError>)
    requires
        needs_new_section(alias@, effect_count) ==> last_index != Some(usize::MAX),
    ensures
        effect_count > 0 ==> r matches Ok(EffectPlan::AlreadyPresent),
        effect_count == 0 && effect_name_spec(alias@) is None ==> r == Err::<
            EffectPlan,
            EnsureEffectError,
        >(EnsureEffectError::EffectNameNotFound),
        effect_count == 0 && effect_name_spec(alias@) is Some && excluded_effect(
            effect_name_spec(alias@)->0,
        ) ==> r matches Ok(EffectPlan::Excluded),
        needs_new_section(alias@, effect_count) ==> (r matches Ok(EffectPlan::Recreate(s)) && s@
            == extended_alias(alias@, last_index, effect_alias@)),
{
    if effect_count > 0 {
        return Ok(EffectPlan::AlreadyPresent);
    }
    let name = match get_effect_name(alias) {
        Some(n) => n,
        None => return Err(EnsureEffectError::EffectNameNotFound),
    };
    if is_excluded_effect(name.as_str()) {
        return Ok(EffectPlan::Excluded);
    }
    let next = match last_index {
        Some(i) => i + 1,
        None => 1,
    };
    let mut new_alias = String::from_str(alias);
    let header = object_section_header(next);
    new_alias.append(header.as_str());
    new_alias.append(effect_alias);
    Ok(EffectPlan::Recreate(new_alias))
}

/// Decides how to give an object the pivot effect, from its alias text and the number of
/// pivot effects it has, finding the largest section index with the header pattern.
/// Where that index is `usize::MAX`, or the pattern does not compile, and a new section
/// would be needed, the plan fails with `IndexOverflow` or `PatternRejected`.
pub fn plan_effect_insertion(alias: &str, effect_count: usize, effect_alias: &str) -> (r: Result<
    EffectPlan,
    EnsureEffectError,
>)
    ensures
        effect_count > 0 ==> r matches Ok(EffectPlan::AlreadyPresent),
        effect_count == 0 && effect_name_spec(alias@) is None ==> r == Err::<
            EffectPlan,
            EnsureEffectError,
        >(EnsureEffectError::EffectNameNotFound),
        effect_count == 0 && effect_name_spec(alias@) is Some && excluded_effect(
            effect_name_spec(alias@)->0,
        ) ==> r matches Ok(EffectPlan::Excluded),
        needs_new_section(alias@, effect_count) && !regex_compiles(OBJECT_HEADER_PATTERN@) ==> r
            == Err::<EffectPlan, EnsureEffectError>(EnsureEffectError::PatternRejected),
        needs_new_section(alias@, effect_count) && regex_compiles(OBJECT_HEADER_PATTERN@) ==> {
            let last = last_object_index_spec(OBJECT_HEADER_PATTERN@, alias@);
            &&& last == Some(usize::MAX) ==> r == Err::<EffectPlan, EnsureEffectError>(
                EnsureEffectError::IndexOverflow,
            )
            &&& last != Some(usize::MAX) ==> (r matches Ok(EffectPlan::Recreate(s)) && s@
                == extended_alias(alias@, last, effect_alias@))
        },
{
    let needed = effect_count == 0 && match get_effect_name(alias) {
        Some(n) => !is_excluded_effect(n.as_str()),
        None => false,
    };
    if !needed {
        return insertion_plan(alias, effect_count, None, effect_alias);
    }
    let pattern = match compile_pattern(OBJECT_HEADER_PATTERN) {
        Some(p) => p,
        None => return Err(EnsureEffectError::PatternRejected),
    };
    let last = last_object_index(&pattern, alias);
    if last == Some(usize::MAX) {
        return Err(EnsureEffectError::IndexOverflow);
    }
    insertion_plan(alias, effect_count, last, effect_alias)
}

/// One item of an effect to set: item `item` of the `effect_index`-th pivot effect becomes
/// `value`.
#[derive(Clone, Copy, Debug, PartialEq, Eq)]
pub struct EffectItemEdit {
    pub effect_index: usize,
    pub item: &'static str,
    pub value: &'static str,
}

/// The item settings that move the pivot of an object to `coord`, on its last pivot effect
/// (the `effect_count`-th); with `reset_offset`, both offsets go back to zero as well.
pub fn coord_item_edits(coord: Coord, reset_offset: bool, effect_count: usize) -> (edits: Vec<
    EffectItemEdit,
>)
    requires
        effect_count >= 1,
    ensures
        edits.len() == if reset_offset { 3int } else { 1int },
        forall|i: int| 0 <= i < edits.len() ==> #[trigger] edits@[i].effect_index == effect_count - 1,
        edits@[0].item@ == "位置"@,
        edits@[0].value@ == coord_label(coord),
        reset_offset ==> edits@[1].item@ == "オフセットX"@ && edits@[1].value@ == "0"@
            && edits@[2].item@ == "オフセットY"@ && edits@[2].value@ == "0"@,
{
    let index = effect_count - 1;
    let mut edits: Vec<EffectItemEdit> = Vec::new();
    edits.push(EffectItemEdit { effect_index: index, item: "位置", value: coord.as_str() });
    if reset_offset {
        edits.push(EffectItemEdit { effect_index: index, item: "オフセットX", value: "0" });
        edits.push(EffectItemEdit { effect_index: index, item: "オフセットY", value: "0" });
    }
    edits
}


/// The object that is recreated with the pivot effect keeps its first effect: the extended
/// alias text names the same effect as the alias it was built from.
pub proof fn lemma_extended_alias_keeps_effect_name(
    alias: Seq<char>,
    last: Option<usize>,
    effect_alias: Seq<char>,
)
    requires
        effect_name_spec(alias) is Some,
    ensures
        effect_name_spec(extended_alias(alias, last, effect_alias)) == effect_name_spec(alias),
{
    reveal_strlit("\n[Object.");
    let head = "\n[Object."@;
    assert(head[0] == '\n');
    let r = head.drop_first() + decimal(next_index(last)) + "]"@ + effect_alias;
    assert(extended_alias(alias, last, effect_alias) =~= alias + seq!['\n'] + r);
    lemma_effect_name_append(alias, r);
}

} // verus!
