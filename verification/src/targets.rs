//! From a detected language to the languages to translate into.
use vstd::prelude::*;

use std::cmp::Ordering;

use crate::config::EffectiveTranslationConfig;
use crate::skip::SkipReason;
use crate::text::texts;

verus! {

// ── Detection ───────────────────────────────────────────────────────────────
/// One guess of the language detector.
pub struct DetectResult<C> {
    pub language: String,
    pub confidence: C,
}

/// Whether `ahead` can be the answer to: does the comparison say that `best`
/// is greater than `next`?
pub open spec fn may_stay_ahead<C: PartialOrd>(best: C, next: C, ahead: bool) -> bool {
    exists|o: Option<Ordering>|
        {
            &&& #[trigger] call_ensures(C::partial_cmp, (&best, &next), o)
            &&& ahead == (o == Some(Ordering::Greater))
        }
}

fn stays_ahead<C: PartialOrd>(best: &C, next: &C) -> (ahead: bool)
    ensures
        may_stay_ahead(*best, *next, ahead),
{
    match best.partial_cmp(next) {
        Some(Ordering::Greater) => true,
        _ => false,
    }
}

/// Whether `best` can be the position of the most confident of the first `n`
/// guesses. A guess gives way to a later one unless it compares as greater: of
/// equal guesses, and of those that do not compare, the last one stays.
pub open spec fn most_confident<C: PartialOrd>(
    guesses: Seq<DetectResult<C>>,
    n: int,
    best: int,
) -> bool
    decreases n,
{
    if n <= 1 {
        best == 0
    } else {
        exists|prev: int, ahead: bool|
            {
                &&& most_confident(guesses, n - 1, prev)
                &&& #[trigger] may_stay_ahead(
                    guesses[prev].confidence,
                    guesses[n - 1].confidence,
                    ahead,
                )
                &&& best == (if ahead {
                    prev
                } else {
                    n - 1
                })
            }
    }
}

/// The position of the most confident guess, if there is any.
pub fn best_detection<C: PartialOrd>(guesses: &Vec<DetectResult<C>>) -> (r: Option<usize>)
    ensures
        match r {
            Some(best) => best < guesses@.len() && most_confident(
                guesses@,
                guesses@.len() as int,
                best as int,
            ),
            None => guesses@.len() == 0,
        },
{
    if guesses.len() == 0 {
        return None;
    }
    let mut best: usize = 0;
    let mut i: usize = 1;
    while i < guesses.len()
        invariant
            best < i <= guesses@.len(),
            most_confident(guesses@, i as int, best as int),
        decreases guesses@.len() - i,
    {
        let ghost prev = best as int;
        let ahead: bool = stays_ahead(&guesses[best].confidence, &guesses[i].confidence);
        if !ahead {
            best = i;
        }
        assert(most_confident(guesses@, i + 1, best as int)) by {
            assert(most_confident(guesses@, (i + 1) - 1, prev));
            assert(may_stay_ahead(
                guesses@[prev].confidence,
                guesses@[(i + 1) - 1].confidence,
                ahead,
            ));
        }
        i = i + 1;
    }
    Some(best)
}

/// Whether comparing confidences is comparing their ranks.
pub open spec fn ranked_by<C: PartialOrd>(rank: spec_fn(C) -> int) -> bool {
    forall|a: C, b: C, o: Option<Ordering>| #[trigger]
        call_ensures(C::partial_cmp, (&a, &b), o) ==> (o == Some(Ordering::Greater) <==> rank(a)
            > rank(b))
}

/// Where confidences compare by rank, the chosen guess is the most confident
/// one, and of equally confident ones the last.
pub proof fn law_best_detection_is_the_last_of_the_greatest<C: PartialOrd>(
    guesses: Seq<DetectResult<C>>,
    n: int,
    best: int,
    rank: spec_fn(C) -> int,
)
    requires
        1 <= n <= guesses.len(),
        ranked_by(rank),
        most_confident(guesses, n, best),
    ensures
        0 <= best < n,
        forall|i: int|
            0 <= i < n ==> rank((#[trigger] guesses[i]).confidence) <= rank(
                guesses[best].confidence,
            ),
        forall|i: int|
            best < i < n ==> rank((#[trigger] guesses[i]).confidence) < rank(
                guesses[best].confidence,
            ),
    decreases n,
{
    if n > 1 {
        let (prev, ahead) = choose|prev: int, ahead: bool|
            {
                &&& most_confident(guesses, n - 1, prev)
                &&& #[trigger] may_stay_ahead(
                    guesses[prev].confidence,
                    guesses[n - 1].confidence,
                    ahead,
                )
                &&& best == (if ahead {
                    prev
                } else {
                    n - 1
                })
            };
        law_best_detection_is_the_last_of_the_greatest(guesses, n - 1, prev, rank);
        assert(ahead == (rank(guesses[prev].confidence) > rank(guesses[n - 1].confidence)));
    }
}

// ── Target languages ────────────────────────────────────────────────────────
/// `langs` without `lang`, in order.
pub open spec fn other_langs(langs: Seq<Seq<char>>, lang: Seq<char>) -> Seq<Seq<char>>
    decreases langs.len(),
{
    if langs.len() == 0 {
        seq![]
    } else {
        let head = other_langs(langs.drop_last(), lang);
        if langs.last() == lang {
            head
        } else {
            head.push(langs.last())
        }
    }
}

/// The languages to translate a text in `lang` into, or why there are none.
/// `below` says whether the detection is below the confidence threshold.
pub open spec fn targets_for(below: bool, lang: Seq<char>, langs: Seq<Seq<char>>) -> Result<
    Seq<Seq<char>>,
    SkipReason,
> {
    if below {
        Err(SkipReason::BelowConfidence)
    } else if !langs.contains(lang) {
        Err(SkipReason::LanguageNotConfigured)
    } else if other_langs(langs, lang).len() == 0 {
        Err(SkipReason::NoRemainingTargets)
    } else {
        Ok(other_langs(langs, lang))
    }
}

/// The texts of a list of targets, or the reason for which there is none.
pub open spec fn targets_view(r: Result<Vec<String>, SkipReason>) -> Result<
    Seq<Seq<char>>,
    SkipReason,
> {
    match r {
        Ok(v) => Ok(texts(v@)),
        Err(reason) => Err(reason),
    }
}

/// The languages to translate a text in `lang` into, given whether the
/// detection is below the confidence threshold.
pub fn select_targets(below: bool, lang: &str, langs: &Vec<String>) -> (r: Result<
    Vec<String>,
    SkipReason,
>)
    ensures
        targets_view(r) == targets_for(below, lang@, texts(langs@)),
{
    if below {
        return Err(SkipReason::BelowConfidence);
    }
    let source: String = lang.to_owned();
    let ghost all = texts(langs@);
    let mut known: bool = false;
    let mut targets: Vec<String> = Vec::new();
    let mut i: usize = 0;
    assert(texts(targets@) =~= other_langs(all.take(0), lang@));
    while i < langs.len()
        invariant
            i <= langs@.len(),
            all == texts(langs@),
            source@ == lang@,
            known == all.take(i as int).contains(lang@),
            texts(targets@) == other_langs(all.take(i as int), lang@),
        decreases langs@.len() - i,
    {
        let ghost before = texts(targets@);
        assert(all.take(i + 1).drop_last() =~= all.take(i as int));
        assert(all.take(i + 1) =~= all.take(i as int).push(all[i as int]));
        if langs[i] == source {
            known = true;
            assert(all.take(i + 1)[i as int] == lang@);
        } else {
            targets.push(langs[i].clone());
            assert(texts(targets@) =~= before.push(all[i as int]));
            assert(known == all.take(i + 1).contains(lang@)) by {
                let head = all.take(i as int);
                let next = all.take(i + 1);
                if known {
                    let j = choose|j: int| 0 <= j < head.len() && head[j] == lang@;
                    assert(next[j] == lang@);
                }
                if next.contains(lang@) {
                    let j = choose|j: int| 0 <= j < next.len() && next[j] == lang@;
                    assert(head[j] == lang@);
                }
            }
        }
        i = i + 1;
    }
    assert(all.take(i as int) =~= all);
    if !known {
        return Err(SkipReason::LanguageNotConfigured);
    }
    if targets.len() == 0 {
        return Err(SkipReason::NoRemainingTargets);
    }
    Ok(targets)
}

/// Decides whether a detected message should be translated and, if so, into
/// which target languages. The detection counts as too weak exactly when
/// `confidence < min_confidence` holds.
pub fn resolve_translation_targets<C: PartialOrd>(
    lang: &str,
    confidence: C,
    translation: &EffectiveTranslationConfig<C>,
) -> (r: Result<Vec<String>, SkipReason>)
    ensures
        exists|below: bool|
            {
                &&& #[trigger] call_ensures(
                    C::lt,
                    (&confidence, &translation.min_confidence),
                    below,
                )
                &&& targets_view(r) == targets_for(below, lang@, texts(translation.langs@))
            },
{
    let below: bool = confidence.lt(&translation.min_confidence);
    select_targets(below, lang, &translation.langs)
}

/// The targets are exactly the configured languages other than the source;
/// the source is never among them, and there is at least one.
pub proof fn law_targets_exclude_source(
    below: bool,
    lang: Seq<char>,
    langs: Seq<Seq<char>>,
)
    ensures
        targets_for(below, lang, langs) matches Ok(targets) ==> {
            &&& !below
            &&& langs.contains(lang)
            &&& targets.len() > 0
            &&& !targets.contains(lang)
            &&& forall|l: Seq<char>|
                l != lang ==> (#[trigger] targets.contains(l) <==> langs.contains(l))
        },
{
    lemma_other_langs(langs, lang);
}

proof fn lemma_other_langs(langs: Seq<Seq<char>>, lang: Seq<char>)
    ensures
        forall|l: Seq<char>|
            #[trigger] other_langs(langs, lang).contains(l) <==> (l != lang && langs.contains(l)),
    decreases langs.len(),
{
    if langs.len() > 0 {
        let rest = langs.drop_last();
        let head = other_langs(rest, lang);
        let out = other_langs(langs, lang);
        lemma_other_langs(rest, lang);
        assert forall|l: Seq<char>| #[trigger] out.contains(l) <==> (l != lang && langs.contains(l))
            by {
            if langs.contains(l) && l != langs.last() {
                let i = choose|i: int| 0 <= i < langs.len() && langs[i] == l;
                assert(rest[i] == l);
                assert(rest.contains(l));
            }
            if rest.contains(l) {
                let i = choose|i: int| 0 <= i < rest.len() && rest[i] == l;
                assert(langs[i] == l);
            }
            assert(langs[langs.len() - 1] == langs.last());
            if langs.last() != lang {
                assert(out[out.len() - 1] == langs.last());
                if head.contains(l) {
                    let i = choose|i: int| 0 <= i < head.len() && head[i] == l;
                    assert(out[i] == l);
                }
                if out.contains(l) {
                    let i = choose|i: int| 0 <= i < out.len() && out[i] == l;
                    if i < head.len() {
                        assert(head[i] == l);
                    }
                }
            }
        }
    }
}

/// A detected message is translated exactly where the detection is not below the
/// threshold, its language is configured and another one is too; else it is
/// skipped for the first of these that fails. The targets are the configured
/// languages other than its own, each as often and in the order in which they
/// are configured.
pub proof fn law_targets_are_the_other_languages(
    below: bool,
    lang: Seq<char>,
    langs: Seq<Seq<char>>,
)
    ensures
        ({
            let r = targets_for(below, lang, langs);
            let known = exists|i: int| 0 <= i < langs.len() && #[trigger] langs[i] == lang;
            let others = exists|i: int| 0 <= i < langs.len() && #[trigger] langs[i] != lang;
            &&& r is Ok <==> !below && known && others
            &&& r == Err::<Seq<Seq<char>>, SkipReason>(SkipReason::BelowConfidence) <==> below
            &&& r == Err::<Seq<Seq<char>>, SkipReason>(SkipReason::LanguageNotConfigured) <==> !below
                && !known
            &&& r == Err::<Seq<Seq<char>>, SkipReason>(SkipReason::NoRemainingTargets) <==> !below
                && known && !others
            &&& r matches Ok(targets) ==> targets == langs.filter(|l: Seq<char>| l != lang)
        }),
{
    lemma_other_langs(langs, lang);
    lemma_other_langs_filter(langs, lang);
    let out = other_langs(langs, lang);
    if out.len() > 0 {
        assert(out.contains(out[0]));
        assert(langs.contains(out[0]));
    }
    if exists|i: int| 0 <= i < langs.len() && #[trigger] langs[i] != lang {
        let i = choose|i: int| 0 <= i < langs.len() && #[trigger] langs[i] != lang;
        assert(langs.contains(langs[i]));
        assert(out.contains(langs[i]));
    }
}

proof fn lemma_other_langs_filter(langs: Seq<Seq<char>>, lang: Seq<char>)
    ensures
        other_langs(langs, lang) == langs.filter(|l: Seq<char>| l != lang),
    decreases langs.len(),
{
    reveal(Seq::filter);
    if langs.len() > 0 {
        lemma_other_langs_filter(langs.drop_last(), lang);
    }
}

/// Where no guess compares as greater than a later one, be they equal or not
/// comparable at all, the last guess is chosen.
pub proof fn law_last_detection_wins_unless_an_earlier_is_greater<C: PartialOrd>(
    guesses: Seq<DetectResult<C>>,
    n: int,
    best: int,
)
    requires
        1 <= n <= guesses.len(),
        most_confident(guesses, n, best),
        forall|i: int, j: int, o: Option<Ordering>|
            0 <= i < j < n && #[trigger] call_ensures(
                C::partial_cmp,
                (&guesses[i].confidence, &guesses[j].confidence),
                o,
            ) ==> o != Some(Ordering::Greater),
    ensures
        best == n - 1,
    decreases n,
{
    if n > 1 {
        let (prev, ahead) = choose|prev: int, ahead: bool|
            {
                &&& most_confident(guesses, n - 1, prev)
                &&& #[trigger] may_stay_ahead(
                    guesses[prev].confidence,
                    guesses[n - 1].confidence,
                    ahead,
                )
                &&& best == (if ahead {
                    prev
                } else {
                    n - 1
                })
            };
        law_last_detection_wins_unless_an_earlier_is_greater(guesses, n - 1, prev);
    }
}

/// The targets that were selected are the texts that the result holds.
pub proof fn law_target_views(targets: Vec<String>, reason: SkipReason)
    ensures
        targets_view(Ok(targets)) matches Ok(v) && v.len() == targets@.len() && forall|i: int|
            0 <= i < v.len() ==> #[trigger] v[i] == targets@[i]@,
        targets_view(Err(reason)) == Err::<Seq<Seq<char>>, SkipReason>(reason),
{
}

} // verus!
