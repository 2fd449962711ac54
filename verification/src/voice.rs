//! Voice selection: a language preference is parsed as a comma-separated
//! list of weighted tags, only the first tag is considered (its weight
//! annotation stripped), and a profile is chosen by exact language match,
//! then by primary subtag, then by falling back to the default — a total
//! function that never fails.
use crate::strutil::chars_to_string;
use crate::strutil::eq_chars;
use crate::strutil::split_before;
use crate::strutil::str_to_chars;
use crate::strutil::take_until;
use crate::strutil::trim;
use crate::strutil::trim_spec;
use vstd::prelude::*;
use vstd::string::StringExecFns;

verus! {

/// A statically configured voice: language tag, synthesis model
/// reference, output sample rate.  Looked up, never mutated.
pub struct VoiceProfile {
    pub language: String,
    pub voice_name: String,
    pub sample_rate: u32,
}

/// The mathematical image of a voice profile.
pub struct VoiceProfileView {
    pub language: Seq<char>,
    pub voice_name: Seq<char>,
    pub sample_rate: u32,
}

impl View for VoiceProfile {
    type V = VoiceProfileView;

    open spec fn view(&self) -> VoiceProfileView {
        VoiceProfileView {
            language: self.language@,
            voice_name: self.voice_name@,
            sample_rate: self.sample_rate,
        }
    }
}

impl DeepView for VoiceProfile {
    type V = VoiceProfileView;

    open spec fn deep_view(&self) -> VoiceProfileView {
        self.view()
    }
}

/// The configured profiles; the first one is the default.
pub open spec fn profiles_spec() -> Seq<VoiceProfileView> {
    seq![
        (VoiceProfileView {
            language: "en-US"@,
            voice_name: "en_US-ryan-high"@,
            sample_rate: 22050,
        }),
        (VoiceProfileView {
            language: "ru-RU"@,
            voice_name: "ru_RU-ruslan-medium"@,
            sample_rate: 22050,
        }),
    ]
}

/// The profile selection falls back to when nothing matches.
pub open spec fn default_profile_spec() -> VoiceProfileView {
    profiles_spec()[0]
}

/// The first tag of a comma-separated weighted preference, its weight
/// annotation after `;` stripped, surrounding whitespace trimmed.
pub open spec fn first_tag_spec(pref: Seq<char>) -> Seq<char> {
    trim_spec(take_until(take_until(pref, ','), ';'))
}

/// The primary subtag of a language tag: the characters before the first
/// `-`.
pub open spec fn primary_subtag_spec(tag: Seq<char>) -> Seq<char> {
    take_until(tag, '-')
}

/// Index of the first profile whose language is exactly `tag`, or -1.
pub open spec fn exact_match_index(ps: Seq<VoiceProfileView>, tag: Seq<char>) -> int
    decreases ps.len(),
{
    if ps.len() == 0 {
        -1
    } else if ps[0].language == tag {
        0
    } else {
        let r = exact_match_index(ps.drop_first(), tag);
        if r == -1 {
            -1
        } else {
            r + 1
        }
    }
}

/// Index of the first profile whose primary subtag is `prim`, or -1.
pub open spec fn primary_match_index(ps: Seq<VoiceProfileView>, prim: Seq<char>) -> int
    decreases ps.len(),
{
    if ps.len() == 0 {
        -1
    } else if primary_subtag_spec(ps[0].language) == prim {
        0
    } else {
        let r = primary_match_index(ps.drop_first(), prim);
        if r == -1 {
            -1
        } else {
            r + 1
        }
    }
}

/// What selection answers for a preference: the first exact match on the
/// first tag, else the first primary-subtag match, else the default.
pub open spec fn select_spec(pref: Seq<char>) -> VoiceProfileView {
    let tag = first_tag_spec(pref);
    let ps = profiles_spec();
    let e = exact_match_index(ps, tag);
    if e >= 0 {
        ps[e]
    } else {
        let p = primary_match_index(ps, primary_subtag_spec(tag));
        if p >= 0 {
            ps[p]
        } else {
            default_profile_spec()
        }
    }
}

fn make_profile(language: &str, voice_name: &str, sample_rate: u32) -> (r: VoiceProfile)
    ensures
        r@.language == language@,
        r@.voice_name == voice_name@,
        r@.sample_rate == sample_rate,
{
    VoiceProfile {
        language: String::from_str(language),
        voice_name: String::from_str(voice_name),
        sample_rate,
    }
}

/// The configured profiles as values; the first one is the default.
pub fn profiles() -> (r: Vec<VoiceProfile>)
    ensures
        r.deep_view() == profiles_spec(),
{
    let mut v: Vec<VoiceProfile> = Vec::new();
    v.push(make_profile("en-US", "en_US-ryan-high", 22050));
    v.push(make_profile("ru-RU", "ru_RU-ruslan-medium", 22050));
    proof {
        assert(v.deep_view() =~= profiles_spec());
    }
    v
}

fn copy_profile(p: &VoiceProfile) -> (r: VoiceProfile)
    ensures
        r@ == p@,
{
    VoiceProfile {
        language: p.language.clone(),
        voice_name: p.voice_name.clone(),
        sample_rate: p.sample_rate,
    }
}

proof fn lemma_exact_match_range(ps: Seq<VoiceProfileView>, tag: Seq<char>)
    ensures
        -1 <= exact_match_index(ps, tag) < ps.len(),
    decreases ps.len(),
{
    if ps.len() != 0 && ps[0].language != tag {
        lemma_exact_match_range(ps.drop_first(), tag);
    }
}

proof fn lemma_primary_match_range(ps: Seq<VoiceProfileView>, prim: Seq<char>)
    ensures
        -1 <= primary_match_index(ps, prim) < ps.len(),
    decreases ps.len(),
{
    if ps.len() != 0 && primary_subtag_spec(ps[0].language) != prim {
        lemma_primary_match_range(ps.drop_first(), prim);
    }
}

fn find_exact(ps: &Vec<VoiceProfile>, tag: &Vec<char>) -> (r: Option<usize>)
    ensures
        match r {
            Some(j) => j < ps@.len() && exact_match_index(ps.deep_view(), tag@) == j,
            None => exact_match_index(ps.deep_view(), tag@) == -1,
        },
{
    let ghost pv = ps.deep_view();
    let mut j: usize = 0;
    proof {
        assert(pv.skip(0) =~= pv);
        assert(pv.len() == ps@.len());
    }
    while j < ps.len()
        invariant
            j <= pv.len(),
            pv == ps.deep_view(),
            pv.len() == ps@.len(),
            exact_match_index(pv, tag@) == {
                let f = exact_match_index(pv.skip(j as int), tag@);
                if f == -1 {
                    -1
                } else {
                    j + f
                }
            },
        decreases pv.len() - j,
    {
        proof {
            assert(pv.skip(j as int)[0] == pv[j as int]);
            assert(pv[j as int] == ps@[j as int]@);
            assert(pv.skip(j as int).drop_first() =~= pv.skip(j as int + 1));
        }
        let pl = str_to_chars(ps[j].language.as_str());
        if eq_chars(&pl, tag) {
            proof {
                assert(exact_match_index(pv.skip(j as int), tag@) == 0);
            }
            return Some(j);
        }
        proof {
            lemma_exact_match_range(pv.skip(j as int + 1), tag@);
            let f0 = exact_match_index(pv.skip(j as int), tag@);
            let f1 = exact_match_index(pv.skip(j as int + 1), tag@);
            assert(f0 == if f1 == -1 {
                -1
            } else {
                f1 + 1
            });
            if f1 != -1 {
                assert(exact_match_index(pv, tag@) == (j + 1) + f1);
            }
        }
        j = j + 1;
    }
    proof {
        assert(pv.skip(j as int) =~= Seq::<VoiceProfileView>::empty());
    }
    None
}

fn find_primary(ps: &Vec<VoiceProfile>, prim: &Vec<char>) -> (r: Option<usize>)
    ensures
        match r {
            Some(j) => j < ps@.len() && primary_match_index(ps.deep_view(), prim@) == j,
            None => primary_match_index(ps.deep_view(), prim@) == -1,
        },
{
    let ghost pv = ps.deep_view();
    let mut j: usize = 0;
    proof {
        assert(pv.skip(0) =~= pv);
        assert(pv.len() == ps@.len());
    }
    while j < ps.len()
        invariant
            j <= pv.len(),
            pv == ps.deep_view(),
            pv.len() == ps@.len(),
            primary_match_index(pv, prim@) == {
                let f = primary_match_index(pv.skip(j as int), prim@);
                if f == -1 {
                    -1
                } else {
                    j + f
                }
            },
        decreases pv.len() - j,
    {
        proof {
            assert(pv.skip(j as int)[0] == pv[j as int]);
            assert(pv[j as int] == ps@[j as int]@);
            assert(pv.skip(j as int).drop_first() =~= pv.skip(j as int + 1));
        }
        let pl = str_to_chars(ps[j].language.as_str());
        let plp = split_before(&pl, '-');
        if eq_chars(&plp, prim) {
            proof {
                assert(primary_match_index(pv.skip(j as int), prim@) == 0);
            }
            return Some(j);
        }
        proof {
            lemma_primary_match_range(pv.skip(j as int + 1), prim@);
            let f0 = primary_match_index(pv.skip(j as int), prim@);
            let f1 = primary_match_index(pv.skip(j as int + 1), prim@);
            assert(f0 == if f1 == -1 {
                -1
            } else {
                f1 + 1
            });
            if f1 != -1 {
                assert(primary_match_index(pv, prim@) == (j + 1) + f1);
            }
        }
        j = j + 1;
    }
    proof {
        assert(pv.skip(j as int) =~= Seq::<VoiceProfileView>::empty());
    }
    None
}

/// Maps a language preference to a voice profile with deterministic
/// fallback; total, always answers with a profile.
pub fn select(preference: &str) -> (r: VoiceProfile)
    ensures
        r@ == select_spec(preference@),
{
    let pc = str_to_chars(preference);
    let t1 = split_before(&pc, ',');
    let t2 = split_before(&t1, ';');
    let tag = trim(&t2);
    let ps = profiles();
    if let Some(j) = find_exact(&ps, &tag) {
        proof {
            assert(ps.deep_view()[j as int] == ps@[j as int]@);
        }
        return copy_profile(&ps[j]);
    }
    let prim = split_before(&tag, '-');
    if let Some(j) = find_primary(&ps, &prim) {
        proof {
            lemma_exact_match_range(ps.deep_view(), tag@);
            assert(ps.deep_view()[j as int] == ps@[j as int]@);
        }
        return copy_profile(&ps[j]);
    }
    proof {
        lemma_exact_match_range(ps.deep_view(), tag@);
        lemma_primary_match_range(ps.deep_view(), prim@);
    }
    let ps2 = profiles();
    proof {
        assert(ps2.deep_view()[0] == ps2@[0]@);
    }
    copy_profile(&ps2[0])
}

proof fn lemma_no_exact(ps: Seq<VoiceProfileView>, tag: Seq<char>)
    requires
        forall|i: int| 0 <= i < ps.len() ==> (#[trigger] ps[i]).language != tag,
    ensures
        exact_match_index(ps, tag) == -1,
    decreases ps.len(),
{
    if ps.len() != 0 {
        assert(forall|i: int|
            0 <= i < ps.len() - 1 ==> (#[trigger] ps.drop_first()[i]) == ps[i + 1]);
        lemma_no_exact(ps.drop_first(), tag);
    }
}

proof fn lemma_no_primary(ps: Seq<VoiceProfileView>, prim: Seq<char>)
    requires
        forall|i: int|
            0 <= i < ps.len() ==> primary_subtag_spec((#[trigger] ps[i]).language) != prim,
    ensures
        primary_match_index(ps, prim) == -1,
    decreases ps.len(),
{
    if ps.len() != 0 {
        assert(forall|i: int|
            0 <= i < ps.len() - 1 ==> (#[trigger] ps.drop_first()[i]) == ps[i + 1]);
        lemma_no_primary(ps.drop_first(), prim);
    }
}

/// Law: a preference whose first tag matches no configured profile
/// exactly and none by primary subtag selects the default profile —
/// selection never fails.
pub proof fn lemma_select_falls_back(pref: Seq<char>)
    requires
        forall|i: int|
            0 <= i < profiles_spec().len() ==> (#[trigger] profiles_spec()[i]).language
                != first_tag_spec(pref),
        forall|i: int|
            0 <= i < profiles_spec().len() ==> primary_subtag_spec(
                (#[trigger] profiles_spec()[i]).language,
            ) != primary_subtag_spec(first_tag_spec(pref)),
    ensures
        select_spec(pref) == default_profile_spec(),
{
    lemma_no_exact(profiles_spec(), first_tag_spec(pref));
    lemma_no_primary(profiles_spec(), primary_subtag_spec(first_tag_spec(pref)));
}

/// The preferred language of an incoming request: the first tag of the
/// given header value, or the default tag where no header is present.
pub fn language_from_header(header: Option<&str>) -> (r: String)
    ensures
        match header {
            Some(h) => r@ == first_tag_spec(h@),
            None => r@ == "en-US"@,
        },
{
    match header {
        Some(h) => {
            let pc = str_to_chars(h);
            let t1 = split_before(&pc, ',');
            let t2 = split_before(&t1, ';');
            let tag = trim(&t2);
            chars_to_string(&tag)
        },
        None => String::from_str("en-US"),
    }
}

} // verus!
