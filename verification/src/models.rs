//! Model bookkeeping for setup: the curated model list, how installed
//! models are recognised, which model the machine's memory recommends,
//! and small pieces of the setup dialogue.

use vstd::prelude::*;
use crate::text;

verus! {

/// A model the setup dialogue offers, with its demands and ratings.
#[derive(Debug, Clone, PartialEq)]
pub struct RecommendedModel {
    /// Model name, e.g. `llama3.2:3b`.
    pub name: String,
    /// Memory the model wants, in whole gigabytes.
    pub ram_gb: u32,
    /// Speed rating, one to five.
    pub speed_rating: u8,
    /// Quality rating, one to five.
    pub quality_rating: u8,
    /// Whether the server lists the model as installed.
    pub installed: bool,
}

/// The curated models offered by the setup dialogue.
pub fn get_default_models() -> (r: Vec<RecommendedModel>)
    ensures
        r@.len() == 4,
        r@[0].name@ == "llama3.2:3b"@ && r@[0].ram_gb == 4 && r@[0].speed_rating == 5
            && r@[0].quality_rating == 3 && !r@[0].installed,
        r@[1].name@ == "mistral:7b"@ && r@[1].ram_gb == 6 && r@[1].speed_rating == 4
            && r@[1].quality_rating == 4 && !r@[1].installed,
        r@[2].name@ == "llama3.1:8b"@ && r@[2].ram_gb == 8 && r@[2].speed_rating == 3
            && r@[2].quality_rating == 5 && !r@[2].installed,
        r@[3].name@ == "phi3:mini"@ && r@[3].ram_gb == 3 && r@[3].speed_rating == 5
            && r@[3].quality_rating == 2 && !r@[3].installed,
{
    let mut models: Vec<RecommendedModel> = Vec::new();
    models.push(
        RecommendedModel {
            name: "llama3.2:3b".to_owned(),
            ram_gb: 4,
            speed_rating: 5,
            quality_rating: 3,
            installed: false,
        },
    );
    models.push(
        RecommendedModel {
            name: "mistral:7b".to_owned(),
            ram_gb: 6,
            speed_rating: 4,
            quality_rating: 4,
            installed: false,
        },
    );
    models.push(
        RecommendedModel {
            name: "llama3.1:8b".to_owned(),
            ram_gb: 8,
            speed_rating: 3,
            quality_rating: 5,
            installed: false,
        },
    );
    models.push(
        RecommendedModel {
            name: "phi3:mini".to_owned(),
            ram_gb: 3,
            speed_rating: 5,
            quality_rating: 2,
            installed: false,
        },
    );
    models
}

/// A rating as five stars: the rating filled (capped at five), the rest
/// hollow.
pub open spec fn spec_stars(rating: int) -> Seq<char> {
    let filled = if rating < 5 {
        rating
    } else {
        5
    };
    Seq::new(filled as nat, |i: int| '\u{2605}') + Seq::new(
        (5 - filled) as nat,
        |i: int| '\u{2606}',
    )
}

/// Renders a rating as stars, matching [`spec_stars`].
pub fn format_stars(rating: u8) -> (r: String)
    ensures
        r@ == spec_stars(rating as int),
{
    let filled: u8 = if rating < 5 {
        rating
    } else {
        5
    };
    let mut out = String::new();
    let mut i: u8 = 0;
    while i < filled
        invariant
            i <= filled,
            filled <= 5,
            out@ =~= Seq::new(i as nat, |k: int| '\u{2605}'),
        decreases filled - i,
    {
        text::push_char(&mut out, '\u{2605}');
        i = i + 1;
        proof {
            assert(out@ =~= Seq::new(i as nat, |k: int| '\u{2605}'));
        }
    }
    let mut j: u8 = 0;
    while j < 5 - filled
        invariant
            j <= 5 - filled,
            filled <= 5,
            out@ =~= Seq::new(filled as nat, |k: int| '\u{2605}') + Seq::new(
                j as nat,
                |k: int| '\u{2606}',
            ),
        decreases 5 - filled - j,
    {
        text::push_char(&mut out, '\u{2606}');
        j = j + 1;
        proof {
            assert(out@ =~= Seq::new(filled as nat, |k: int| '\u{2605}') + Seq::new(
                j as nat,
                |k: int| '\u{2606}',
            ));
        }
    }
    out
}

/// Which of the curated models the machine's memory recommends, memory
/// given in megabytes: the best model the memory carries.
pub fn get_recommended_model_index(ram_mb: u64) -> (r: usize)
    ensures
        ram_mb >= 8192 ==> r == 2,
        6144 <= ram_mb < 8192 ==> r == 1,
        4096 <= ram_mb < 6144 ==> r == 0,
        ram_mb < 4096 ==> r == 3,
{
    if ram_mb >= 8192 {
        2
    } else if ram_mb >= 6144 {
        1
    } else if ram_mb >= 4096 {
        0
    } else {
        3
    }
}

/// The part of a model name before its first colon; the whole name when
/// there is none.
pub open spec fn spec_before_colon(s: Seq<char>) -> Seq<char>
    decreases s.len(),
{
    if s.len() == 0 {
        s
    } else if s[0] == ':' {
        Seq::empty()
    } else {
        seq![s[0]] + spec_before_colon(s.drop_first())
    }
}

/// The prefix of a model name before its first colon, matching
/// [`spec_before_colon`].
pub fn before_colon<'a>(s: &'a str) -> (r: &'a str)
    ensures
        r@ == spec_before_colon(s@),
{
    let n = s.unicode_len();
    proof {
        assert(s@.skip(0) =~= s@);
        assert(s@.take(0) =~= Seq::<char>::empty());
        assert(s@.take(0) + spec_before_colon(s@.skip(0)) =~= spec_before_colon(s@));
    }
    let mut i: usize = 0;
    while i < n && s.get_char(i) != ':'
        invariant
            i <= n,
            n == s@.len(),
            forall|j: int| 0 <= j < i ==> s@[j] != ':',
            spec_before_colon(s@) == s@.take(i as int) + spec_before_colon(s@.skip(i as int)),
        decreases n - i,
    {
        proof {
            assert(s@.skip(i as int)[0] == s@[i as int]);
            assert(s@.skip(i as int).drop_first() =~= s@.skip(i + 1));
            assert(s@.take(i as int).push(s@[i as int]) =~= s@.take(i + 1));
            assert(s@.take(i as int) + (seq![s@[i as int]] + spec_before_colon(s@.skip(i + 1)))
                =~= s@.take(i + 1) + spec_before_colon(s@.skip(i + 1)));
        }
        i = i + 1;
    }
    proof {
        if i == n {
            assert(s@.skip(i as int) =~= Seq::<char>::empty());
        } else {
            assert(s@.skip(i as int)[0] == s@[i as int]);
        }
        assert(spec_before_colon(s@.skip(i as int)) =~= Seq::<char>::empty());
        assert(s@.take(i as int) + Seq::<char>::empty() =~= s@.take(i as int));
    }
    s.substring_char(0, i)
}

/// A listed name counts a model as installed when it is the model's own
/// name, the model's base name with the `latest` tag, or when the model
/// name itself is the listed name's base with the `latest` tag.
pub open spec fn spec_name_matches(listed: Seq<char>, model: Seq<char>) -> bool {
    ||| listed == model
    ||| listed == spec_before_colon(model) + ":latest"@
    ||| model == spec_before_colon(listed) + ":latest"@
}

/// Whether any listed name counts `model` as installed.
pub fn is_model_listed(installed: &Vec<String>, model: &str) -> (r: bool)
    ensures
        r == exists|i: int|
            0 <= i < installed@.len() && spec_name_matches(#[trigger] installed@[i]@, model@),
{
    let mut model_latest = before_colon(model).to_owned();
    model_latest.append(":latest");
    for i in 0..installed.len()
        invariant
            model_latest@ == spec_before_colon(model@) + ":latest"@,
            forall|j: int|
                0 <= j < i ==> !spec_name_matches(#[trigger] installed@[j]@, model@),
    {
        let listed = installed[i].as_str();
        let mut listed_latest = before_colon(listed).to_owned();
        listed_latest.append(":latest");
        if text::str_eq(listed, model) || text::str_eq(listed, model_latest.as_str())
            || text::str_eq(model, listed_latest.as_str()) {
            return true;
        }
    }
    false
}

/// Marks each curated model as installed exactly when the server's list
/// counts it so; nothing else about the models changes.
pub fn mark_installed(models: &mut Vec<RecommendedModel>, installed: &Vec<String>)
    ensures
        final(models)@.len() == old(models)@.len(),
        forall|j: int|
            0 <= j < old(models)@.len() ==> {
                let m0 = #[trigger] old(models)@[j];
                let m1 = final(models)@[j];
                m1.name == m0.name && m1.ram_gb == m0.ram_gb && m1.speed_rating == m0.speed_rating
                    && m1.quality_rating == m0.quality_rating && m1.installed == exists|i: int|
                    0 <= i < installed@.len() && spec_name_matches(
                        #[trigger] installed@[i]@,
                        m0.name@,
                    )
            },
{
    let n = models.len();
    for j in 0..n
        invariant
            n == models@.len(),
            models@.len() == old(models)@.len(),
            forall|t: int| j <= t < n ==> #[trigger] models@[t] == old(models)@[t],
            forall|t: int|
                0 <= t < j ==> {
                    let m0 = #[trigger] old(models)@[t];
                    let m1 = models@[t];
                    m1.name == m0.name && m1.ram_gb == m0.ram_gb && m1.speed_rating
                        == m0.speed_rating && m1.quality_rating == m0.quality_rating
                        && m1.installed == exists|i: int|
                        0 <= i < installed@.len() && spec_name_matches(
                            #[trigger] installed@[i]@,
                            m0.name@,
                        )
                },
    {
        let hit = is_model_listed(installed, models[j].name.as_str());
        let updated = RecommendedModel {
            name: models[j].name.clone(),
            ram_gb: models[j].ram_gb,
            speed_rating: models[j].speed_rating,
            quality_rating: models[j].quality_rating,
            installed: hit,
        };
        models.set(j, updated);
    }
}

/// Whether the server's list carries `model` itself or any tagged form of
/// it (`model:` followed by anything).
pub fn model_present(installed: &Vec<String>, model: &str) -> (r: bool)
    ensures
        r == exists|i: int|
            0 <= i < installed@.len() && ((#[trigger] installed@[i]@) == model@
                || text::spec_has_prefix(installed@[i]@, model@ + ":"@)),
{
    let mut tagged = model.to_owned();
    tagged.append(":");
    for i in 0..installed.len()
        invariant
            tagged@ == model@ + ":"@,
            forall|j: int|
                0 <= j < i ==> !((#[trigger] installed@[j]@) == model@ || text::spec_has_prefix(
                    installed@[j]@,
                    model@ + ":"@,
                )),
    {
        if text::str_eq(installed[i].as_str(), model) || text::has_prefix(
            installed[i].as_str(),
            tagged.as_str(),
        ) {
            return true;
        }
    }
    false
}

/// Index of the first name carrying prefix `p`, or the length when none
/// does.
pub open spec fn spec_first_with_prefix(names: Seq<Seq<char>>, p: Seq<char>, i: int) -> int
    decreases names.len() - i,
{
    if i < 0 || i >= names.len() {
        names.len() as int
    } else if text::spec_has_prefix(names[i], p) {
        i
    } else {
        spec_first_with_prefix(names, p, i + 1)
    }
}

/// The model-name prefixes preferred for generation, best first.
pub open spec fn spec_preferred_prefixes() -> Seq<Seq<char>> {
    seq!["llama3"@, "llama3.2"@, "mistral"@, "gemma2"@, "phi3"@]
}

/// The first installed name matching a preferred prefix, prefixes tried
/// in order from `k` on.
pub open spec fn spec_pick_preferred(names: Seq<Seq<char>>, k: int) -> Option<Seq<char>>
    decreases spec_preferred_prefixes().len() - k,
{
    if k < 0 || k >= spec_preferred_prefixes().len() {
        None
    } else {
        let i = spec_first_with_prefix(names, spec_preferred_prefixes()[k], 0);
        if i < names.len() {
            Some(names[i])
        } else {
            spec_pick_preferred(names, k + 1)
        }
    }
}

/// Picks the generation model: for each preferred prefix in order, the
/// first installed name carrying it; none when no prefix matches.
pub fn pick_preferred_model(names: &Vec<String>) -> (r: Option<String>)
    ensures
        match r {
            Some(m) => spec_pick_preferred(names.deep_view(), 0) == Some(m@),
            None => spec_pick_preferred(names.deep_view(), 0) is None,
        },
{
    let ghost nv = names.deep_view();
    let prefixes: [&str; 5] = ["llama3", "llama3.2", "mistral", "gemma2", "phi3"];
    for k in 0..5usize
        invariant
            nv == names.deep_view(),
            nv.len() == names.len(),
            forall|t: int| 0 <= t < nv.len() ==> nv[t] == #[trigger] names[t]@,
            forall|t: int|
                0 <= t < 5 ==> (#[trigger] prefixes@[t])@ == spec_preferred_prefixes()[t],
            spec_pick_preferred(nv, 0) == spec_pick_preferred(nv, k as int),
    {
        for i in 0..names.len()
            invariant
                nv == names.deep_view(),
                nv.len() == names.len(),
                k < 5,
                forall|t: int| 0 <= t < nv.len() ==> nv[t] == #[trigger] names[t]@,
                forall|t: int|
                    0 <= t < 5 ==> (#[trigger] prefixes@[t])@ == spec_preferred_prefixes()[t],
                spec_pick_preferred(nv, 0) == spec_pick_preferred(nv, k as int),
                spec_first_with_prefix(nv, spec_preferred_prefixes()[k as int], 0)
                    == spec_first_with_prefix(nv, spec_preferred_prefixes()[k as int], i as int),
        {
            if text::has_prefix(names[i].as_str(), prefixes[k]) {
                proof {
                    assert(text::spec_has_prefix(nv[i as int], spec_preferred_prefixes()[k as int]));
                    assert(spec_first_with_prefix(nv, spec_preferred_prefixes()[k as int], i as int)
                        == i as int);
                    assert(spec_first_with_prefix(nv, spec_preferred_prefixes()[k as int], 0)
                        == i as int);
                    assert(spec_pick_preferred(nv, k as int) == Some(nv[i as int]));
                    assert(spec_pick_preferred(nv, 0) == Some(names[i as int]@));
                }
                return Some(names[i].clone());
            }
        }
        proof {
            assert(spec_first_with_prefix(
                nv,
                spec_preferred_prefixes()[k as int],
                names.len() as int,
            ) == nv.len() as int);
        }
    }
    None
}

/// Whether a typed answer says yes: empty, `y` or `yes`, once trimmed and
/// lower-cased.
pub fn is_affirmative(input: &str) -> (r: bool)
    ensures
        ({
            let t = text::spec_to_lower(text::spec_trim(input@));
            r == (t =~= Seq::<char>::empty() || t =~= "y"@ || t =~= "yes"@)
        }),
{
    let trimmed = text::trim_str(input);
    let lowered = text::to_ascii_lowercase(trimmed);
    lowered.as_str().unicode_len() == 0 || text::str_eq(lowered.as_str(), "y") || text::str_eq(
        lowered.as_str(),
        "yes",
    )
}

/// One doubling per retry: the seconds to wait before attempt `attempt`.
pub open spec fn spec_pow2(n: nat) -> nat
    decreases n,
{
    if n == 0 {
        1
    } else {
        2 * spec_pow2((n - 1) as nat)
    }
}

/// The backoff before a retry, two raised to the attempt number, matching
/// [`spec_pow2`].
pub fn retry_delay_secs(attempt: u32) -> (r: u64)
    requires
        attempt <= 32,
    ensures
        r == spec_pow2(attempt as nat),
{
    let mut r: u64 = 1;
    proof {
        lemma_pow2_le(0, 32);
    }
    let mut i: u32 = 0;
    while i < attempt
        invariant
            i <= attempt <= 32,
            r == spec_pow2(i as nat),
            r <= spec_pow2(32),
        decreases attempt - i,
    {
        proof {
            lemma_pow2_le(i as nat + 1, 32);
            assert(spec_pow2(32) == 0x100000000) by {
                reveal_with_fuel(spec_pow2, 33);
            }
        }
        r = r * 2;
        i = i + 1;
    }
    r
}

/// Doubling is monotone in the exponent.
proof fn lemma_pow2_le(a: nat, b: nat)
    requires
        a <= b,
    ensures
        spec_pow2(a) <= spec_pow2(b),
    decreases b,
{
    if a < b {
        lemma_pow2_le(a, (b - 1) as nat);
    }
}

} // verus!
