//! Ready-made rules: Conway's game of life on plain, remembering and three-channel cells, and a
//! rock-paper-scissors rule on three colours.
use rand::Rng;
use vstd::prelude::*;

use crate::{deref_all, Color, ColoredDataType, DataType, PrintableDataType, RandomInit, RuleSet};

verus! {

/// Relies on rand::random: a value drawn from the thread-local generator; nothing is promised
/// of which.
pub assume_specification<T>[ rand::random::<T> ]() -> (r: T)
    where
        rand::distributions::Standard: rand::distributions::Distribution<T>,
;

/// Relies on rand::Rng::gen_range on the thread-local generator: a value drawn from `0..=hi`,
/// which is never empty.
#[verifier::external_body]
fn random_up_to(hi: u8) -> (r: u8)
    ensures
        r <= hi,
{
    rand::thread_rng().gen_range(0..=hi)
}

/// Conway's rule: a live cell with two or three live neighbours lives on, a dead cell with
/// exactly three comes alive, every other cell is dead.
pub open spec fn conway_next(me: bool, neighbours: int) -> bool {
    (me && neighbours == 2) || neighbours == 3
}

/// 1 for true, 0 for false.
pub open spec fn bit(b: bool) -> int {
    if b {
        1
    } else {
        0
    }
}

/// The classic game of life on cells that are alive or dead.
#[derive(Clone, Copy)]
pub struct ClassicConway {}

/// A cell that is alive or dead.
#[derive(Clone, Copy)]
pub struct BoolData {
    pub value: bool,
}

/// How many cells of `s` are alive.
pub open spec fn alive_count(s: Seq<BoolData>) -> int
    decreases s.len(),
{
    if s.len() == 0 {
        0
    } else {
        alive_count(s.drop_last()) + bit(s.last().value)
    }
}

impl DataType for BoolData {}

impl RandomInit for BoolData {
    fn rnd() -> BoolData {
        BoolData { value: rand::random::<bool>() }
    }
}

impl ColoredDataType for BoolData {
    open spec fn color(&self) -> Color {
        if self.value {
            (255, 255, 255, 255)
        } else {
            (0, 0, 0, 255)
        }
    }

    fn get_color(&self) -> (c: Color) {
        if self.value {
            (255, 255, 255, 255)
        } else {
            (0, 0, 0, 255)
        }
    }
}

impl PrintableDataType for BoolData {
    open spec fn glyph(&self) -> char {
        if self.value {
            '*'
        } else {
            '_'
        }
    }

    fn get_char(&self) -> (c: char) {
        if self.value {
            '*'
        } else {
            '_'
        }
    }
}

/// How many of `source` are alive; every value fits an `i32` for a window of at most 255 x 255.
fn count_alive(source: &[&BoolData]) -> (r: i32)
    requires
        source@.len() <= 255 * 255,
    ensures
        r == alive_count(deref_all(source@)),
        0 <= r <= source@.len(),
{
    let ghost s = deref_all(source@);
    let mut all: i32 = 0;
    let mut i: usize = 0;
    while i < source.len()
        invariant
            s == deref_all(source@),
            source@.len() <= 255 * 255,
            i <= source@.len(),
            0 <= all <= i,
            all == alive_count(s.subrange(0, i as int)),
        decreases source@.len() - i,
    {
        proof {
            assert(s.subrange(0, i + 1).drop_last() =~= s.subrange(0, i as int));
        }
        if source[i].value {
            all = all + 1;
        }
        i = i + 1;
    }
    proof {
        assert(s.subrange(0, i as int) =~= s);
    }
    all
}

impl RuleSet for ClassicConway {
    type Data = BoolData;

    const SOURCE_SIZE: u8 = 3;

    open spec fn rule(source: Seq<BoolData>) -> BoolData {
        let me = source[4].value;
        BoolData { value: conway_next(me, alive_count(source) - bit(me)) }
    }

    fn next(source: &[&BoolData]) -> (r: BoolData) {
        let me = source[4].value;
        let all = count_alive(source);
        let neighbours = all - if me {
            1i32
        } else {
            0i32
        };
        match (me, neighbours) {
            (true, 2) | (_, 3) => BoolData { value: true },
            _ => BoolData { value: false },
        }
    }
}

/// A cell that is alive or dead and remembers whether it was alive in each of the last five
/// generations.
#[derive(Clone, Copy)]
pub struct BoolHist {
    pub current: bool,
    /// Oldest first.
    pub history: (bool, bool, bool, bool, bool),
}

/// In how many of the remembered generations the cell was alive.
pub open spec fn history_count(h: (bool, bool, bool, bool, bool)) -> int {
    bit(h.0) + bit(h.1) + bit(h.2) + bit(h.3) + bit(h.4)
}

/// How many cells of `s` are alive now.
pub open spec fn current_count(s: Seq<BoolHist>) -> int
    decreases s.len(),
{
    if s.len() == 0 {
        0
    } else {
        current_count(s.drop_last()) + bit(s.last().current)
    }
}

impl RandomInit for BoolHist {
    fn rnd() -> BoolHist {
        BoolHist { history: (false, false, false, false, false), current: rand::random::<bool>() }
    }
}

impl DataType for BoolHist {}

impl ColoredDataType for BoolHist {
    /// White while alive; otherwise a grey that is lighter the more often the cell was alive
    /// lately.
    open spec fn color(&self) -> Color {
        if self.current {
            (255, 255, 255, 255)
        } else {
            let gray = (history_count(self.history) * 40) as u8;
            (gray, gray, gray, 255)
        }
    }

    fn get_color(&self) -> (c: Color) {
        if self.current {
            (255, 255, 255, 255)
        } else {
            let h = self.history;
            let s: u8 = (h.0 as u8) + (h.1 as u8) + (h.2 as u8) + (h.3 as u8) + (h.4 as u8);
            let gray = s * 40;
            (gray, gray, gray, 255)
        }
    }
}

/// Conway's rule on cells that remember their last five generations.
#[derive(Clone, Copy)]
pub struct ConwayWithHistory {}

/// How many of `source` are alive now.
fn count_current(source: &[&BoolHist]) -> (r: i32)
    requires
        source@.len() <= 255 * 255,
    ensures
        r == current_count(deref_all(source@)),
        0 <= r <= source@.len(),
{
    let ghost s = deref_all(source@);
    let mut all: i32 = 0;
    let mut i: usize = 0;
    while i < source.len()
        invariant
            s == deref_all(source@),
            source@.len() <= 255 * 255,
            i <= source@.len(),
            0 <= all <= i,
            all == current_count(s.subrange(0, i as int)),
        decreases source@.len() - i,
    {
        proof {
            assert(s.subrange(0, i + 1).drop_last() =~= s.subrange(0, i as int));
        }
        if source[i].current {
            all = all + 1;
        }
        i = i + 1;
    }
    proof {
        assert(s.subrange(0, i as int) =~= s);
    }
    all
}

impl RuleSet for ConwayWithHistory {
    type Data = BoolHist;

    const SOURCE_SIZE: u8 = 3;

    /// Conway's rule on the current states; the cell's own state joins its history and the
    /// oldest entry leaves it.
    open spec fn rule(source: Seq<BoolHist>) -> BoolHist {
        let me = source[4];
        BoolHist {
            current: conway_next(me.current, current_count(source) - bit(me.current)),
            history: (me.history.1, me.history.2, me.history.3, me.history.4, me.current),
        }
    }

    fn next(source: &[&BoolHist]) -> (r: BoolHist) {
        let me = source[4];
        let all = count_current(source);
        let neighbours = all - if me.current {
            1i32
        } else {
            0i32
        };
        let current = match (me.current, neighbours) {
            (true, 2) | (_, 3) => true,
            _ => false,
        };
        let h = me.history;
        BoolHist { current, history: (h.1, h.2, h.3, h.4, me.current) }
    }
}

/// A cell with three independent channels, each alive or dead.
#[derive(Clone, Copy)]
pub struct ColorData {
    pub r: bool,
    pub g: bool,
    pub b: bool,
}

/// Channel `ch` of `d`: 0 red, 1 green, 2 blue.
pub open spec fn channel(d: ColorData, ch: int) -> bool {
    if ch == 0 {
        d.r
    } else if ch == 1 {
        d.g
    } else {
        d.b
    }
}

/// How many cells of `s` have channel `ch` alive.
pub open spec fn channel_count(s: Seq<ColorData>, ch: int) -> int
    decreases s.len(),
{
    if s.len() == 0 {
        0
    } else {
        channel_count(s.drop_last(), ch) + bit(channel(s.last(), ch))
    }
}

impl RandomInit for ColorData {
    fn rnd() -> Self {
        ColorData {
            r: rand::random::<bool>(),
            g: rand::random::<bool>(),
            b: rand::random::<bool>(),
        }
    }
}

impl DataType for ColorData {}

impl ColoredDataType for ColorData {
    open spec fn color(&self) -> Color {
        ((bit(self.r) * 255) as u8, (bit(self.g) * 255) as u8, (bit(self.b) * 255) as u8, 255)
    }

    fn get_color(&self) -> (c: Color) {
        (self.r as u8 * 255, self.g as u8 * 255, self.b as u8 * 255, 255)
    }
}

/// Conway's rule on each of three channels independently.
#[derive(Clone, Copy)]
pub struct ConwayColors {}

/// How many of `source` have each channel alive: red, green, blue.
fn count_channels(source: &[&ColorData]) -> (r: (i32, i32, i32))
    requires
        source@.len() <= 255 * 255,
    ensures
        r.0 == channel_count(deref_all(source@), 0),
        r.1 == channel_count(deref_all(source@), 1),
        r.2 == channel_count(deref_all(source@), 2),
        0 <= r.0 <= source@.len(),
        0 <= r.1 <= source@.len(),
        0 <= r.2 <= source@.len(),
{
    let ghost s = deref_all(source@);
    let mut all: (i32, i32, i32) = (0, 0, 0);
    let mut i: usize = 0;
    while i < source.len()
        invariant
            s == deref_all(source@),
            source@.len() <= 255 * 255,
            i <= source@.len(),
            0 <= all.0 <= i,
            0 <= all.1 <= i,
            0 <= all.2 <= i,
            all.0 == channel_count(s.subrange(0, i as int), 0),
            all.1 == channel_count(s.subrange(0, i as int), 1),
            all.2 == channel_count(s.subrange(0, i as int), 2),
        decreases source@.len() - i,
    {
        proof {
            assert(s.subrange(0, i + 1).drop_last() =~= s.subrange(0, i as int));
        }
        let d = source[i];
        all = (all.0 + d.r as i32, all.1 + d.g as i32, all.2 + d.b as i32);
        i = i + 1;
    }
    proof {
        assert(s.subrange(0, i as int) =~= s);
    }
    all
}

/// Conway's rule on one channel.
fn conway_cell(me: bool, neighbours: i32) -> (r: bool)
    ensures
        r == conway_next(me, neighbours as int),
{
    match (me, neighbours) {
        (true, 2) | (_, 3) => true,
        _ => false,
    }
}

impl RuleSet for ConwayColors {
    type Data = ColorData;

    const SOURCE_SIZE: u8 = 3;

    open spec fn rule(source: Seq<ColorData>) -> ColorData {
        let me = source[4];
        ColorData {
            r: conway_next(me.r, channel_count(source, 0) - bit(me.r)),
            g: conway_next(me.g, channel_count(source, 1) - bit(me.g)),
            b: conway_next(me.b, channel_count(source, 2) - bit(me.b)),
        }
    }

    fn next(source: &[&ColorData]) -> (r: ColorData) {
        let me = source[4];
        let all = count_channels(source);
        let neighbours = (all.0 - me.r as i32, all.1 - me.g as i32, all.2 - me.b as i32);
        let r = conway_cell(me.r, neighbours.0);
        let g = conway_cell(me.g, neighbours.1);
        let b = conway_cell(me.b, neighbours.2);
        ColorData { r, g, b }
    }
}

/// One of three colours, each of which gives way to the one that beats it.
#[derive(Clone, Copy)]
pub enum RGBData {
    Red,
    Green,
    Blue,
}

/// How many cells of `s` are `Red`, `Green` and `Blue`: 0, 1 and 2 in turn.
pub open spec fn kind_count(s: Seq<RGBData>, kind: int) -> int
    decreases s.len(),
{
    if s.len() == 0 {
        0
    } else {
        kind_count(s.drop_last(), kind) + match s.last() {
            RGBData::Red => bit(kind == 0),
            RGBData::Green => bit(kind == 1),
            RGBData::Blue => bit(kind == 2),
        }
    }
}

impl DataType for RGBData {}

impl ColoredDataType for RGBData {
    open spec fn color(&self) -> Color {
        match self {
            RGBData::Red => (150, 150, 0, 255),
            RGBData::Green => (75, 150, 0, 255),
            RGBData::Blue => (25, 50, 0, 255),
        }
    }

    fn get_color(&self) -> (c: Color) {
        match self {
            RGBData::Red => (150, 150, 0, 255),
            RGBData::Green => (75, 150, 0, 255),
            RGBData::Blue => (25, 50, 0, 255),
        }
    }
}

impl RandomInit for RGBData {
    fn rnd() -> Self {
        match random_up_to(2) {
            0 => RGBData::Red,
            1 => RGBData::Green,
            _ => RGBData::Blue,
        }
    }
}

/// Rock, paper, scissors: a cell takes the colour that beats its own once at least three cells
/// of the window have that colour.
#[derive(Clone, Copy)]
pub struct RGBRules {}

/// How many cells of the window it takes to turn a cell.
pub const LIMIT: u8 = 3;

/// How many of `source` are red, green and blue.
fn count_kinds(source: &[&RGBData]) -> (r: (u8, u8, u8))
    requires
        source@.len() <= 255,
    ensures
        r.0 == kind_count(deref_all(source@), 0),
        r.1 == kind_count(deref_all(source@), 1),
        r.2 == kind_count(deref_all(source@), 2),
{
    let ghost s = deref_all(source@);
    let mut neighbour: (u8, u8, u8) = (0, 0, 0);
    let mut i: usize = 0;
    while i < source.len()
        invariant
            s == deref_all(source@),
            source@.len() <= 255,
            i <= source@.len(),
            neighbour.0 + neighbour.1 + neighbour.2 == i,
            neighbour.0 == kind_count(s.subrange(0, i as int), 0),
            neighbour.1 == kind_count(s.subrange(0, i as int), 1),
            neighbour.2 == kind_count(s.subrange(0, i as int), 2),
        decreases source@.len() - i,
    {
        proof {
            assert(s.subrange(0, i + 1).drop_last() =~= s.subrange(0, i as int));
        }
        neighbour = match source[i] {
            RGBData::Red => (neighbour.0 + 1, neighbour.1, neighbour.2),
            RGBData::Green => (neighbour.0, neighbour.1 + 1, neighbour.2),
            RGBData::Blue => (neighbour.0, neighbour.1, neighbour.2 + 1),
        };
        i = i + 1;
    }
    proof {
        assert(s.subrange(0, i as int) =~= s);
    }
    neighbour
}

impl RuleSet for RGBRules {
    type Data = RGBData;

    const SOURCE_SIZE: u8 = 3;

    open spec fn rule(source: Seq<RGBData>) -> RGBData {
        match source[4] {
            RGBData::Red => if kind_count(source, 2) >= LIMIT {
                RGBData::Blue
            } else {
                RGBData::Red
            },
            RGBData::Green => if kind_count(source, 0) >= LIMIT {
                RGBData::Red
            } else {
                RGBData::Green
            },
            RGBData::Blue => if kind_count(source, 1) >= LIMIT {
                RGBData::Green
            } else {
                RGBData::Blue
            },
        }
    }

    fn next(source: &[&RGBData]) -> (r: RGBData) {
        let me = source[4];
        let neighbour = count_kinds(source);
        match me {
            RGBData::Red => if neighbour.2 >= LIMIT {
                RGBData::Blue
            } else {
                RGBData::Red
            },
            RGBData::Green => if neighbour.0 >= LIMIT {
                RGBData::Red
            } else {
                RGBData::Green
            },
            RGBData::Blue => if neighbour.1 >= LIMIT {
                RGBData::Green
            } else {
                RGBData::Blue
            },
        }
    }
}

} // verus!
