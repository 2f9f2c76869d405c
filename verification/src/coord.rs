use vstd::prelude::*;

verus! {

/// The nine anchor positions that the pivot of an object can be moved to.
#[derive(Clone, Copy, Debug, PartialEq, Eq, Structural)]
pub enum Coord {
    LeftTop,
    Top,
    RightTop,
    Left,
    Center,
    Right,
    LeftBottom,
    Bottom,
    RightBottom,
}

/// The label of each anchor position, as the effect's "位置" item spells it.
pub open spec fn coord_label(c: Coord) -> Seq<char> {
    match c {
        Coord::LeftTop => "左上"@,
        Coord::Top => "上"@,
        Coord::RightTop => "右上"@,
        Coord::Left => "左"@,
        Coord::Center => "中心"@,
        Coord::Right => "右"@,
        Coord::LeftBottom => "左下"@,
        Coord::Bottom => "下"@,
        Coord::RightBottom => "右下"@,
    }
}

impl Coord {
    /// The label of this position, as written into the effect's "位置" item.
    pub fn as_str(&self) -> (s: &'static str)
        ensures
            s@ == coord_label(*self),
    {
        match self {
            Coord::LeftTop => "左上",
            Coord::Top => "上",
            Coord::RightTop => "右上",
            Coord::Left => "左",
            Coord::Center => "中心",
            Coord::Right => "右",
            Coord::LeftBottom => "左下",
            Coord::Bottom => "下",
            Coord::RightBottom => "右下",
        }
    }
}


/// The labels name the positions: the sides are 左, 上, 右 and 下, the middle is 中心, each
/// corner is its horizontal side followed by its vertical one, and no two positions share
/// a label.
pub proof fn lemma_coord_labels(a: Coord, b: Coord)
    ensures
        coord_label(Coord::Left) == "左"@,
        coord_label(Coord::Top) == "上"@,
        coord_label(Coord::Right) == "右"@,
        coord_label(Coord::Bottom) == "下"@,
        coord_label(Coord::Center) == "中心"@,
        coord_label(Coord::LeftTop) == coord_label(Coord::Left) + coord_label(Coord::Top),
        coord_label(Coord::RightTop) == coord_label(Coord::Right) + coord_label(Coord::Top),
        coord_label(Coord::LeftBottom) == coord_label(Coord::Left) + coord_label(Coord::Bottom),
        coord_label(Coord::RightBottom) == coord_label(Coord::Right) + coord_label(Coord::Bottom),
        coord_label(a) == coord_label(b) ==> a == b,
{
    reveal_strlit("左上");
    reveal_strlit("上");
    reveal_strlit("右上");
    reveal_strlit("左");
    reveal_strlit("中心");
    reveal_strlit("右");
    reveal_strlit("左下");
    reveal_strlit("下");
    reveal_strlit("右下");
    assert("左上"@ =~= "左"@ + "上"@);
    assert("右上"@ =~= "右"@ + "上"@);
    assert("左下"@ =~= "左"@ + "下"@);
    assert("右下"@ =~= "右"@ + "下"@);
    if coord_label(a) == coord_label(b) {
        let la = coord_label(a);
        let lb = coord_label(b);
        assert(la.len() == lb.len());
        assert(la[0] == lb[0]);
        if la.len() == 2 {
            assert(la[1] == lb[1]);
        }
    }
}

} // verus!
