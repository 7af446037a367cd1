use vstd::prelude::*;

verus! {

/// Shape of a map cell, named after its entrance pattern over the cell's four
/// sides, in side order, before rotation.
#[derive(Clone, Copy, Debug, PartialEq, Eq, Structural)]
pub enum TileKind {
    /// One entrance: `1000`.
    DeadEnd,
    /// Two neighbouring entrances: `1100`.
    Corner,
    /// Two opposite entrances: `1010`.
    Straight,
    /// Three entrances: `1110`.
    Junction,
    /// Four entrances: `1111`.
    Crossing,
    /// No entrance at all.
    Empty,
}

/// Entrances of a kind in its canonical orientation.
pub open spec fn kind_pattern(k: TileKind) -> Seq<bool> {
    match k {
        TileKind::DeadEnd => seq![true, false, false, false],
        TileKind::Corner => seq![true, true, false, false],
        TileKind::Straight => seq![true, false, true, false],
        TileKind::Junction => seq![true, true, true, false],
        TileKind::Crossing => seq![true, true, true, true],
        TileKind::Empty => seq![false, false, false, false],
    }
}

/// The layout of a cell: the kind and least number of quarter turns that
/// produce its entrances; cells without entrance are empty.
pub open spec fn tile_layout(e: Seq<bool>) -> (TileKind, int) {
    if no_entrance(e) {
        (TileKind::Empty, 0)
    } else {
        choose|k: TileKind, q: int| is_least_layout(e, k, q)
    }
}

/// Entrances of a canonical pattern after `q` quarter turns: side `i`
/// receives what side `i - q` (counted round the four sides) had.
pub open spec fn rotate_entrances(p: Seq<bool>, q: int) -> Seq<bool> {
    Seq::new(4, |i: int| p[(i + 4 - q) % 4])
}

/// `q` is the smallest number of quarter turns that brings kind `k` onto `e`.
pub open spec fn is_least_layout(e: Seq<bool>, k: TileKind, q: int) -> bool {
    &&& 0 <= q < 4
    &&& rotate_entrances(kind_pattern(k), q) =~= e
    &&& forall|q2: int| 0 <= q2 < q ==> !(rotate_entrances(kind_pattern(k), q2) =~= e)
}

/// No side has an entrance.
pub open spec fn no_entrance(e: Seq<bool>) -> bool {
    forall|i: int| 0 <= i < e.len() ==> !e[i]
}

impl TileKind {
    /// Name of the room model for this kind in the catacomb tile set.
    pub fn tile_model(&self) -> (name: &'static str)
        ensures
            *self == TileKind::DeadEnd ==> name@ == "tile-catacombs-1000"@,
            *self == TileKind::Corner ==> name@ == "tile-catacombs-1100"@,
            *self == TileKind::Straight ==> name@ == "tile-catacombs-1010"@,
            *self == TileKind::Junction ==> name@ == "tile-catacombs-1110"@,
            *self == TileKind::Crossing ==> name@ == "tile-catacombs-1111"@,
            *self == TileKind::Empty ==> name@ == "tile-empty"@,
    {
        match self {
            TileKind::DeadEnd => "tile-catacombs-1000",
            TileKind::Corner => "tile-catacombs-1100",
            TileKind::Straight => "tile-catacombs-1010",
            TileKind::Junction => "tile-catacombs-1110",
            TileKind::Crossing => "tile-catacombs-1111",
            TileKind::Empty => "tile-empty",
        }
    }

    /// Name of the room model for this kind in the block set; the block set
    /// has no empty room and shows the crossing in its place.
    pub fn block_model(&self) -> (name: &'static str)
        ensures
            *self == TileKind::DeadEnd ==> name@ == "Room1000-1"@,
            *self == TileKind::Corner ==> name@ == "Room1100-1"@,
            *self == TileKind::Straight ==> name@ == "Room1010-1"@,
            *self == TileKind::Junction ==> name@ == "Room1110-1"@,
            *self == TileKind::Crossing || *self == TileKind::Empty ==> name@ == "Room1111-1"@,
    {
        match self {
            TileKind::DeadEnd => "Room1000-1",
            TileKind::Corner => "Room1100-1",
            TileKind::Straight => "Room1010-1",
            TileKind::Junction => "Room1110-1",
            TileKind::Crossing => "Room1111-1",
            TileKind::Empty => "Room1111-1",
        }
    }
}

/// Chooses the catacomb tile for a cell from which of its four sides must be
/// open, and the rotation in degrees (90 per quarter turn) that turns the
/// tile's canonical pattern onto them.
pub fn determine_tile(entrances: &[bool; 4]) -> (r: (TileKind, u32))
    ensures
        r.0 == TileKind::Empty <==> no_entrance(entrances@),
        r.0 == TileKind::Empty ==> r.1 == 0,
        r.1 % 90 == 0 && r.1 < 360,
        r.0 != TileKind::Empty ==> is_least_layout(entrances@, r.0, (r.1 / 90) as int),
        r.0 == tile_layout(entrances@).0,
        r.1 == 90 * tile_layout(entrances@).1,
{
    let r = match (entrances[0], entrances[1], entrances[2], entrances[3]) {
        (true, true, true, true) => (TileKind::Crossing, 0),
        (true, true, true, false) => (TileKind::Junction, 0),
        (true, true, false, true) => (TileKind::Junction, 270),
        (true, true, false, false) => (TileKind::Corner, 0),
        (true, false, true, true) => (TileKind::Junction, 180),
        (true, false, true, false) => (TileKind::Straight, 0),
        (true, false, false, true) => (TileKind::Corner, 270),
        (true, false, false, false) => (TileKind::DeadEnd, 0),
        (false, true, true, true) => (TileKind::Junction, 90),
        (false, true, true, false) => (TileKind::Corner, 90),
        (false, true, false, true) => (TileKind::Straight, 90),
        (false, true, false, false) => (TileKind::DeadEnd, 90),
        (false, false, true, true) => (TileKind::Corner, 180),
        (false, false, true, false) => (TileKind::DeadEnd, 180),
        (false, false, false, true) => (TileKind::DeadEnd, 270),
        (false, false, false, false) => (TileKind::Empty, 0),
    };
    proof {
        if r.0 != TileKind::Empty {
            let q = (r.1 / 90) as int;
            assert(is_least_layout(entrances@, r.0, q));
            let (k2, q2) = choose|k: TileKind, q: int| is_least_layout(entrances@, k, q);
            lemma_least_layout_unique(entrances@, r.0, q, k2, q2);
        }
    }
    r
}

/// A pattern of entrances has only one least layout: the tile kind and the
/// number of quarter turns are both determined by the entrances.
pub proof fn lemma_least_layout_unique(e: Seq<bool>, k1: TileKind, q1: int, k2: TileKind, q2: int)
    requires
        is_least_layout(e, k1, q1),
        is_least_layout(e, k2, q2),
    ensures
        k1 == k2,
        q1 == q2,
{
    assert(e.len() == 4);
    assert(rotate_entrances(kind_pattern(k1), q1)[0] == e[0]);
    assert(rotate_entrances(kind_pattern(k1), q1)[1] == e[1]);
    assert(rotate_entrances(kind_pattern(k1), q1)[2] == e[2]);
    assert(rotate_entrances(kind_pattern(k1), q1)[3] == e[3]);
    assert(rotate_entrances(kind_pattern(k2), q2)[0] == e[0]);
    assert(rotate_entrances(kind_pattern(k2), q2)[1] == e[1]);
    assert(rotate_entrances(kind_pattern(k2), q2)[2] == e[2]);
    assert(rotate_entrances(kind_pattern(k2), q2)[3] == e[3]);
}

/// Chooses the block room for a cell from its entrances and the rotation in
/// degrees. Patterns that are not four sides long, or have no entrance, get
/// the crossing room; three-entrance rooms are never rotated.
pub fn determine_block(entrances: &Vec<bool>) -> (r: (TileKind, u32))
    ensures
        entrances@.len() != 4 || no_entrance(entrances@) ==> r == (TileKind::Crossing, 0u32),
        entrances@.len() == 4 && !no_entrance(entrances@) ==> {
            &&& r.0 == tile_layout(entrances@).0
            &&& r.1 == if r.0 == TileKind::Junction { 0 } else { 90 * tile_layout(entrances@).1 }
        },
{
    if entrances.len() != 4 {
        return (TileKind::Crossing, 0);
    }
    let cell: [bool; 4] = [entrances[0], entrances[1], entrances[2], entrances[3]];
    assert(cell@ =~= entrances@);
    let (kind, rotation) = determine_tile(&cell);
    match kind {
        TileKind::Empty => (TileKind::Crossing, 0),
        TileKind::Junction => (TileKind::Junction, 0),
        _ => (kind, rotation),
    }
}

} // verus!
