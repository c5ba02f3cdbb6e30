//! Whether a different solver configuration would solve a model faster: the
//! configurations the sweep measures and the choice of the fastest.
use vstd::prelude::*;

verus! {

/// One configuration to measure.
pub struct Preset {
    pub label: &'static str,
    /// Solver options applied on top of the defaults and the options file.
    pub options: Vec<(&'static str, &'static str)>,
    /// Apply the presolve rewrite before solving, and charge the rewrite to
    /// this preset's time.
    pub rewrite: bool,
}

/// How many presets the sweep runs.
pub const PRESET_COUNT: usize = 6;

/// The presets as plain values: label, options, rewrite.
pub open spec fn preset_view(preset: Preset) -> (Seq<char>, Seq<(Seq<char>, Seq<char>)>, bool) {
    (
        preset.label@,
        preset.options@.map_values(|option: (&'static str, &'static str)| (option.0@, option.1@)),
        preset.rewrite,
    )
}

/// The sweep, in display order. The first entry is the baseline every other
/// row is compared against: it is first and unconfigured.
pub open spec fn spec_presets() -> Seq<(Seq<char>, Seq<(Seq<char>, Seq<char>)>, bool)> {
    seq![
        ("default"@, Seq::empty(), false),
        ("presolve off"@, seq![("presolve"@, "off"@)], false),
        ("simplex dual"@, seq![("simplex_strategy"@, "1"@)], false),
        ("simplex primal"@, seq![("simplex_strategy"@, "4"@)], false),
        ("ipm"@, seq![("solver"@, "ipm"@)], false),
        ("local presolve"@, Seq::empty(), true),
    ]
}

fn preset(label: &'static str, option: Option<(&'static str, &'static str)>, rewrite: bool) -> (res: Preset)
    ensures
        res.label == label,
        res.rewrite == rewrite,
        res.options@ == match option {
            Some(o) => seq![o],
            None => Seq::empty(),
        },
{
    let mut options: Vec<(&'static str, &'static str)> = Vec::new();
    match option {
        Some(o) => {
            options.push(o);
        },
        None => {},
    }
    Preset { label, options, rewrite }
}

/// The sweep, in display order.
pub fn presets() -> (res: Vec<Preset>)
    ensures
        res@.map_values(|p: Preset| preset_view(p)) == spec_presets(),
{
    let mut all: Vec<Preset> = Vec::new();
    all.push(preset("default", None, false));
    all.push(preset("presolve off", Some(("presolve", "off")), false));
    all.push(preset("simplex dual", Some(("simplex_strategy", "1")), false));
    all.push(preset("simplex primal", Some(("simplex_strategy", "4")), false));
    all.push(preset("ipm", Some(("solver", "ipm")), false));
    all.push(preset("local presolve", None, true));
    assert(all@.map_values(|p: Preset| preset_view(p)) =~= spec_presets()) by {
        assert forall|i: int| 0 <= i < 6 implies (#[trigger] all@[i]).options@.map_values(
            |option: (&'static str, &'static str)| (option.0@, option.1@),
        ) =~= spec_presets()[i].1 by {}
    }
    all
}

/// The index of the fastest candidate, the first on a tie, or `None` when no
/// row is a candidate. A row is a candidate when it holds a time.
pub open spec fn fastest_of(times: Seq<Option<u128>>) -> Option<int>
    decreases times.len(),
{
    if times.len() == 0 {
        None
    } else {
        let before = fastest_of(times.drop_last());
        match times.last() {
            Some(t) => match before {
                Some(i) => if times[i]->0 <= t {
                    Some(i)
                } else {
                    Some(times.len() - 1)
                },
                None => Some(times.len() - 1),
            },
            None => before,
        }
    }
}

proof fn lemma_fastest_in_range(times: Seq<Option<u128>>)
    ensures
        fastest_of(times) matches Some(i) ==> 0 <= i < times.len() && times[i] is Some,
        fastest_of(times) is None ==> forall|k: int| 0 <= k < times.len() ==> times[k] is None,
    decreases times.len(),
{
    if times.len() > 0 {
        lemma_fastest_in_range(times.drop_last());
        let before = fastest_of(times.drop_last());
        if let Some(i) = before {
            assert(times[i] == times.drop_last()[i]);
        }
        assert forall|k: int| 0 <= k < times.len() - 1 implies times[k] == times.drop_last()[k] by {}
    }
}

/// The fastest preset: among the rows that reached an optimal solution that
/// agrees with the baseline (those holding a total time, in nanoseconds),
/// the one with the smallest time, the first on a tie.
pub fn fastest(times: &Vec<Option<u128>>) -> (res: Option<usize>)
    ensures
        match fastest_of(times@) {
            Some(i) => res == Some(i as usize),
            None => res is None,
        },
{
    let mut best: Option<usize> = None;
    let mut i: usize = 0;
    while i < times.len()
        invariant
            i <= times@.len(),
            match fastest_of(times@.take(i as int)) {
                Some(k) => best == Some(k as usize),
                None => best is None,
            },
        decreases times@.len() - i,
    {
        proof {
            assert(times@.take(i + 1).drop_last() =~= times@.take(i as int));
            lemma_fastest_in_range(times@.take(i as int));
        }
        match times[i] {
            Some(t) => match best {
                Some(b) => {
                    assert(times@.take(i + 1)[b as int] == times@[b as int]);
                    let current = times[b];
                    match current {
                        Some(bt) => {
                            if !(bt <= t) {
                                best = Some(i);
                            }
                        },
                        None => {},
                    }
                },
                None => {
                    best = Some(i);
                },
            },
            None => {},
        }
        i = i + 1;
    }
    assert(times@.take(i as int) =~= times@);
    best
}

} // verus!
