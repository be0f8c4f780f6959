//! The settings that the interface reads and changes: the frontlight presets.

use vstd::prelude::*;
use vstd::string::StringExecFns;
use crate::frontlight::LightLevels;

verus! {

/// Frontlight levels saved by the user, with the ambient light measured when
/// they were saved, if it could be measured, and the time of saving, in
/// seconds.
#[derive(Clone, Copy, Debug, PartialEq, Eq, Structural)]
pub struct LightPreset {
    pub lightsensor_level: Option<u16>,
    pub frontlight_levels: LightLevels,
    pub timestamp: u64,
}

#[derive(Clone, Debug, PartialEq, Eq)]
pub struct Settings {
    /// The saved presets, oldest first.
    pub frontlight_presets: Vec<LightPreset>,
    pub wifi: bool,
}

pub ghost struct SettingsView {
    pub frontlight_presets: Seq<LightPreset>,
    pub wifi: bool,
}

impl View for Settings {
    type V = SettingsView;

    open spec fn view(&self) -> SettingsView {
        SettingsView { frontlight_presets: self.frontlight_presets@, wifi: self.wifi }
    }
}

/// The decimal digit of a number below ten.
pub open spec fn digit(d: nat) -> char {
    if d == 0 {
        '0'
    } else if d == 1 {
        '1'
    } else if d == 2 {
        '2'
    } else if d == 3 {
        '3'
    } else if d == 4 {
        '4'
    } else if d == 5 {
        '5'
    } else if d == 6 {
        '6'
    } else if d == 7 {
        '7'
    } else if d == 8 {
        '8'
    } else {
        '9'
    }
}

/// The decimal numeral of `n`, without leading zeros.
pub open spec fn decimal(n: nat) -> Seq<char>
    decreases n,
{
    if n < 10 {
        seq![digit(n)]
    } else {
        decimal(n / 10).push(digit(n % 10))
    }
}

/// The hour and the minute of the day at `seconds`, two digits each.
pub open spec fn clock_time(seconds: nat) -> Seq<char> {
    let hour = (seconds / 3600) % 24;
    let minute = (seconds / 60) % 60;
    seq![digit(hour / 10), digit(hour % 10), ':', digit(minute / 10), digit(minute % 10)]
}

impl LightPreset {
    /// The name under which a preset is shown: the ambient light at which
    /// it was saved, in lux, or else the time of day at which it was saved.
    pub open spec fn name_spec(self) -> Seq<char> {
        match self.lightsensor_level {
            Some(level) => decimal(level as nat) + seq![' ', 'l', 'x'],
            None => clock_time(self.timestamp as nat),
        }
    }

    pub fn name(&self) -> (name: String)
        ensures
            name@ == self.name_spec(),
    {
        match self.lightsensor_level {
            Some(level) => {
                let mut name = numeral(level as u64);
                proof {
                    reveal_strlit(" lx");
                    assert(" lx"@ =~= seq![' ', 'l', 'x']);
                }
                name.append(" lx");
                name
            },
            None => {
                let hour = (self.timestamp / 3600) % 24;
                let minute = (self.timestamp / 60) % 60;
                let mut name = String::from_str(digit_text(hour / 10));
                name.append(digit_text(hour % 10));
                proof {
                    reveal_strlit(":");
                    assert(":"@ =~= seq![':']);
                }
                name.append(":");
                name.append(digit_text(minute / 10));
                name.append(digit_text(minute % 10));
                assert(name@ =~= clock_time(self.timestamp as nat));
                name
            },
        }
    }
}

/// The text of one decimal digit.
fn digit_text(d: u64) -> (text: &'static str)
    requires
        d < 10,
    ensures
        text@ == seq![digit(d as nat)],
{
    proof {
        reveal_strlit("0");
        reveal_strlit("1");
        reveal_strlit("2");
        reveal_strlit("3");
        reveal_strlit("4");
        reveal_strlit("5");
        reveal_strlit("6");
        reveal_strlit("7");
        reveal_strlit("8");
        reveal_strlit("9");
    }
    let text = if d == 0 {
        "0"
    } else if d == 1 {
        "1"
    } else if d == 2 {
        "2"
    } else if d == 3 {
        "3"
    } else if d == 4 {
        "4"
    } else if d == 5 {
        "5"
    } else if d == 6 {
        "6"
    } else if d == 7 {
        "7"
    } else if d == 8 {
        "8"
    } else {
        "9"
    };
    assert(text@ =~= seq![digit(d as nat)]);
    text
}

/// Writes `n` as a decimal numeral.
pub fn numeral(n: u64) -> (text: String)
    ensures
        text@ == decimal(n as nat),
    decreases n,
{
    if n < 10 {
        String::from_str(digit_text(n))
    } else {
        let mut text = numeral(n / 10);
        text.append(digit_text(n % 10));
        assert(text@ =~= decimal(n as nat));
        text
    }
}

/// The distance between two readings of the light sensor.
pub open spec fn distance(a: u16, b: u16) -> int {
    if a >= b {
        a - b
    } else {
        b - a
    }
}

/// Among the first `upto` presets, the place of the one saved at the ambient
/// light nearest to `level`; of several equally near, the first. `None`
/// where none of them was saved with a reading.
pub open spec fn nearest(level: u16, presets: Seq<LightPreset>, upto: int) -> Option<int>
    decreases upto,
{
    if upto <= 0 {
        None
    } else {
        let before = nearest(level, presets, upto - 1);
        match (presets[upto - 1].lightsensor_level, before) {
            (None, _) => before,
            (Some(_), None) => Some(upto - 1),
            (Some(here), Some(best)) => {
                if distance(level, here) < distance(
                    level,
                    presets[best].lightsensor_level.unwrap(),
                ) {
                    Some(upto - 1)
                } else {
                    before
                }
            },
        }
    }
}

/// The levels that suit the ambient light `lightsensor_level`, judged by the
/// presets.
///
/// With fewer than two presets there is nothing to judge by. With a reading,
/// the levels are those of the preset saved at the nearest reading. Without
/// one, or where no preset was saved with a reading, they are those of the
/// preset saved last.
pub open spec fn guessed(lightsensor_level: Option<u16>, presets: Seq<LightPreset>) -> Option<
    LightLevels,
> {
    if presets.len() < 2 {
        None
    } else {
        match lightsensor_level {
            Some(level) => match nearest(level, presets, presets.len() as int) {
                Some(best) => Some(presets[best].frontlight_levels),
                None => Some(presets.last().frontlight_levels),
            },
            None => Some(presets.last().frontlight_levels),
        }
    }
}

/// What `nearest` finds is the place of a preset saved with a reading, no
/// preset is nearer to `level`, and none before it is as near.
pub proof fn lemma_nearest(level: u16, presets: Seq<LightPreset>, upto: int)
    requires
        0 <= upto <= presets.len(),
    ensures
        match nearest(level, presets, upto) {
            Some(best) => {
                &&& 0 <= best < upto
                &&& presets[best].lightsensor_level is Some
                &&& forall|j: int|
                    0 <= j < upto && presets[j].lightsensor_level is Some ==> distance(
                        level,
                        presets[best].lightsensor_level.unwrap(),
                    ) <= distance(level, #[trigger] presets[j].lightsensor_level.unwrap())
                &&& forall|j: int|
                    0 <= j < best && presets[j].lightsensor_level is Some ==> distance(
                        level,
                        presets[best].lightsensor_level.unwrap(),
                    ) < distance(level, #[trigger] presets[j].lightsensor_level.unwrap())
            },
            None => forall|j: int| 0 <= j < upto ==> (#[trigger] presets[j]).lightsensor_level is None,
        },
    decreases upto,
{
    if upto > 0 {
        lemma_nearest(level, presets, upto - 1);
    }
}

/// Guesses the frontlight levels that suit the ambient light.
pub fn guess_frontlight(lightsensor_level: Option<u16>, light_presets: &Vec<LightPreset>) -> (levels:
    Option<LightLevels>)
    ensures
        levels == guessed(lightsensor_level, light_presets@),
{
    let n = light_presets.len();
    if n < 2 {
        return None;
    }
    let last = light_presets[n - 1].frontlight_levels;
    let level = match lightsensor_level {
        Some(level) => level,
        None => {
            return Some(last);
        },
    };
    let mut best: Option<usize> = None;
    let mut best_distance: u16 = 0;
    let mut i: usize = 0;
    while i < n
        invariant
            0 <= i <= n,
            n == light_presets@.len(),
            match best {
                Some(b) => nearest(level, light_presets@, i as int) == Some(b as int) && b < i
                    && light_presets@[b as int].lightsensor_level is Some && best_distance
                    == distance(level, light_presets@[b as int].lightsensor_level.unwrap()),
                None => nearest(level, light_presets@, i as int) is None,
            },
        decreases n - i,
    {
        if let Some(here) = light_presets[i].lightsensor_level {
            let d: u16 = if level >= here {
                level - here
            } else {
                here - level
            };
            if best.is_none() || d < best_distance {
                best = Some(i);
                best_distance = d;
            }
        }
        i += 1;
    }
    match best {
        Some(b) => Some(light_presets[b].frontlight_levels),
        None => Some(last),
    }
}

/// `sorted` with `preset` put after the last preset that is not younger.
pub open spec fn inserted(sorted: Seq<LightPreset>, preset: LightPreset) -> Seq<LightPreset>
    decreases sorted.len(),
{
    if sorted.len() == 0 {
        seq![preset]
    } else if sorted.last().timestamp <= preset.timestamp {
        sorted.push(preset)
    } else {
        inserted(sorted.drop_last(), preset).push(sorted.last())
    }
}

/// The presets in the order of their timestamps, oldest first; presets of
/// one timestamp keep their order.
pub open spec fn by_timestamp(presets: Seq<LightPreset>) -> Seq<LightPreset>
    decreases presets.len(),
{
    if presets.len() == 0 {
        presets
    } else {
        inserted(by_timestamp(presets.drop_last()), presets.last())
    }
}

/// Whether no preset stands before an older one.
pub open spec fn is_ordered(presets: Seq<LightPreset>) -> bool {
    forall|i: int, j: int|
        0 <= i <= j < presets.len() ==> presets[i].timestamp <= presets[j].timestamp
}

/// Putting a preset into its place is putting it at the index before which
/// no preset is younger than it and from which on every preset is.
pub proof fn lemma_inserted_at(sorted: Seq<LightPreset>, preset: LightPreset, at: int)
    requires
        0 <= at <= sorted.len(),
        at > 0 ==> sorted[at - 1].timestamp <= preset.timestamp,
        forall|j: int| at <= j < sorted.len() ==> sorted[j].timestamp > preset.timestamp,
    ensures
        inserted(sorted, preset) == sorted.insert(at, preset),
    decreases sorted.len() - at,
{
    if sorted.len() == 0 {
        assert(sorted.insert(at, preset) =~= seq![preset]);
    } else if at == sorted.len() {
        assert(sorted.insert(at, preset) =~= sorted.push(preset));
    } else {
        lemma_inserted_at(sorted.drop_last(), preset, at);
        assert(sorted.insert(at, preset) =~= sorted.drop_last().insert(at, preset).push(
            sorted.last(),
        ));
    }
}

/// Putting a preset into its place gives one preset more, keeps the others,
/// and keeps the order where there was one.
pub proof fn lemma_inserted(sorted: Seq<LightPreset>, preset: LightPreset)
    ensures
        inserted(sorted, preset).len() == sorted.len() + 1,
        inserted(sorted, preset).to_multiset() == sorted.to_multiset().insert(preset),
        is_ordered(sorted) ==> is_ordered(inserted(sorted, preset)),
    decreases sorted.len(),
{
    broadcast use vstd::seq_lib::group_to_multiset_ensures;

    if sorted.len() == 0 {
        assert(sorted =~= Seq::empty());
        assert(seq![preset] =~= Seq::<LightPreset>::empty().push(preset));
    } else if sorted.last().timestamp <= preset.timestamp {
    } else {
        let front = sorted.drop_last();
        lemma_inserted(front, preset);
        assert(sorted =~= front.push(sorted.last()));
        let put = inserted(front, preset);
        assert(put.push(sorted.last()).to_multiset() =~= sorted.to_multiset().insert(preset));
        if is_ordered(sorted) {
            assert(is_ordered(front));
            assert forall|i: int| 0 <= i < put.len() implies (#[trigger] put[i]).timestamp
                <= sorted.last().timestamp by {
                assert(put.to_multiset().count(put[i]) > 0);
                if put[i] != preset {
                    assert(front.to_multiset().count(put[i]) > 0);
                    assert(front.contains(put[i]));
                }
            }
        }
    }
}

/// Ordering by timestamp keeps every preset and gives an ordered list.
pub proof fn lemma_by_timestamp(presets: Seq<LightPreset>)
    ensures
        by_timestamp(presets).len() == presets.len(),
        by_timestamp(presets).to_multiset() == presets.to_multiset(),
        is_ordered(by_timestamp(presets)),
    decreases presets.len(),
{
    broadcast use vstd::seq_lib::group_to_multiset_ensures;

    if presets.len() > 0 {
        lemma_by_timestamp(presets.drop_last());
        lemma_inserted(by_timestamp(presets.drop_last()), presets.last());
        assert(presets =~= presets.drop_last().push(presets.last()));
    }
}

/// Puts `preset` into `sorted`, after the last preset that is not younger.
fn insert_by_timestamp(sorted: &mut Vec<LightPreset>, preset: LightPreset)
    ensures
        final(sorted)@ == inserted(old(sorted)@, preset),
{
    let mut at: usize = sorted.len();
    while at > 0 && sorted[at - 1].timestamp > preset.timestamp
        invariant
            0 <= at <= sorted.len(),
            sorted@ == old(sorted)@,
            forall|j: int| at <= j < sorted.len() ==> sorted@[j].timestamp > preset.timestamp,
        decreases at,
    {
        at -= 1;
    }
    proof {
        lemma_inserted_at(sorted@, preset, at as int);
    }
    sorted.insert(at, preset);
}

/// Orders the presets by their timestamps, oldest first. Presets of one
/// timestamp keep their order.
pub fn sort_by_timestamp(presets: &mut Vec<LightPreset>)
    ensures
        final(presets)@ == by_timestamp(old(presets)@),
{
    let mut sorted: Vec<LightPreset> = Vec::new();
    let n = presets.len();
    let mut i: usize = 0;
    while i < n
        invariant
            0 <= i <= n,
            n == presets.len(),
            presets@ == old(presets)@,
            sorted@ == by_timestamp(presets@.take(i as int)),
        decreases n - i,
    {
        insert_by_timestamp(&mut sorted, presets[i]);
        proof {
            assert(presets@.take(i + 1).drop_last() =~= presets@.take(i as int));
        }
        i += 1;
    }
    proof {
        assert(presets@.take(n as int) =~= presets@);
    }
    *presets = sorted;
}

} // verus!
