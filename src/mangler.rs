//! Planning a random walk of languages, and carrying a text along it.

use vstd::prelude::*;

use crate::translator::{
    codes_view, is_unsupported, outcome_view, path_view, LanguagePair, OutcomeView, PairView,
    TranslationError, Translator,
};

verus! {

/// Whether `bank` holds a code other than `code`.
pub open spec fn has_other(bank: Seq<Seq<char>>, code: Seq<char>) -> bool {
    exists|j: int| 0 <= j < bank.len() && bank[j] != code
}

/// Whether `bank` holds at least two distinct codes.
pub open spec fn has_two_distinct(bank: Seq<Seq<char>>) -> bool {
    exists|i: int, j: int| 0 <= i < bank.len() && 0 <= j < bank.len() && bank[i] != bank[j]
}

/// Whether a path of `rounds` hops can be drawn from `bank`: every hop but
/// the last must be able to move to a language other than the current one.
pub open spec fn plannable(original: Seq<char>, bank: Seq<Seq<char>>, rounds: int) -> bool {
    ||| bank.len() == 0
    ||| rounds <= 1
    ||| rounds == 2 && has_other(bank, original)
    ||| has_two_distinct(bank)
}

/// Whether `bank` holds a code other than `code`.
fn holds_other(bank: &[&str], code: &str) -> (r: bool)
    ensures
        r == has_other(codes_view(bank@), code@),
{
    let wanted = String::from_str(code);
    let mut j: usize = 0;
    while j < bank.len()
        invariant
            j <= bank@.len(),
            wanted@ == code@,
            forall|k: int| 0 <= k < j ==> bank@[k]@ == code@,
        decreases bank@.len() - j,
    {
        let candidate = String::from_str(bank[j]);
        if !(candidate == wanted) {
            proof {
                assert(codes_view(bank@)[j as int] != code@);
            }
            return true;
        }
        j += 1;
    }
    proof {
        if has_other(codes_view(bank@), code@) {
            let k = choose|k: int| 0 <= k < codes_view(bank@).len() && codes_view(bank@)[k] != code@;
            assert(bank@[k]@ != code@);
        }
    }
    false
}

/// Whether a path of `rounds` hops from `original_lang` can be planned from
/// `lang_bank`, which `plan_lang_path` and `get_random_lang_path` require.
pub fn is_plannable(original_lang: &str, lang_bank: &[&str], rounds: usize) -> (r: bool)
    ensures
        r == plannable(original_lang@, codes_view(lang_bank@), rounds as int),
{
    if lang_bank.len() == 0 || rounds <= 1 {
        return true;
    }
    if rounds == 2 && holds_other(lang_bank, original_lang) {
        return true;
    }
    let ghost bank = codes_view(lang_bank@);
    let r = holds_other(lang_bank, lang_bank[0]);
    proof {
        assert(bank[0] == lang_bank@[0]@);
        if has_two_distinct(bank) {
            let (a, b) = choose|a: int, b: int|
                0 <= a < bank.len() && 0 <= b < bank.len() && bank[a] != bank[b];
            if bank[a] != bank[0] {
                assert(has_other(bank, bank[0]));
            } else {
                assert(bank[b] != bank[0]);
            }
        }
        if has_other(bank, bank[0]) {
            let k = choose|k: int| 0 <= k < bank.len() && #[trigger] bank[k] != bank[0];
            assert(0 <= k < bank.len() && 0 <= 0 < bank.len() && bank[k] != bank[0]);
        }
    }
    r
}

/// A source of indices below a bound, used to draw languages from a bank.
pub trait IndexSource {
    /// The indices drawn so far, oldest first.
    spec fn drawn(&self) -> Seq<nat>;

    /// An index below `len`, which is recorded as drawn.
    fn pick(&mut self, len: usize) -> (r: usize)
        requires
            0 < len,
        ensures
            r < len,
            final(self).drawn() == old(self).drawn().push(r as nat),
    ;
}

/// Draws indices uniformly from the thread-local random generator.
pub struct ThreadRandom {
    drawn: Ghost<Seq<nat>>,
}

impl ThreadRandom {
    /// A source that has drawn nothing yet.
    pub fn new() -> (r: ThreadRandom)
        ensures
            r.drawn() == Seq::<nat>::empty(),
    {
        ThreadRandom { drawn: Ghost(Seq::empty()) }
    }
}

/// Relies on rand's `Rng::gen_range` over `thread_rng()`: a value in `0..len`,
/// which it panics on only when the range is empty.
#[verifier::external_body]
fn random_below(len: usize) -> (r: usize)
    requires
        0 < len,
    ensures
        r < len,
{
    rand::Rng::gen_range(&mut rand::thread_rng(), 0..len)
}

impl IndexSource for ThreadRandom {
    closed spec fn drawn(&self) -> Seq<nat> {
        self.drawn@
    }

    fn pick(&mut self, len: usize) -> (r: usize) {
        let r = random_below(len);
        self.drawn = Ghost(self.drawn@.push(r as nat));
        r
    }
}

/// Replays a fixed script of draws, cycling through it; each draw is reduced
/// modulo the bound it is asked for. An empty script always draws 0.
pub struct ScriptedPicks {
    picks: Vec<usize>,
    next: usize,
    drawn: Ghost<Seq<nat>>,
}

impl ScriptedPicks {
    /// The script of draws.
    pub closed spec fn script(&self) -> Seq<usize> {
        self.picks@
    }

    /// Where in the script the next draw is read.
    pub closed spec fn position(&self) -> nat {
        self.next as nat
    }

    /// A script that starts at its first draw.
    pub fn new(picks: Vec<usize>) -> (r: ScriptedPicks)
        ensures
            r.script() == picks@,
            r.position() == 0,
            r.drawn() == Seq::<nat>::empty(),
    {
        ScriptedPicks { picks, next: 0, drawn: Ghost(Seq::empty()) }
    }
}

impl IndexSource for ScriptedPicks {
    closed spec fn drawn(&self) -> Seq<nat> {
        self.drawn@
    }

    /// The script's entry at the current position, modulo `len`, after
    /// which the position moves on by one, cyclically.
    fn pick(&mut self, len: usize) -> (r: usize)
        ensures
            final(self).script() == old(self).script(),
            old(self).script().len() == 0 ==> r == 0 && final(self).position() == old(
                self,
            ).position(),
            old(self).script().len() > 0 ==> r == old(self).script()[old(self).position() as int
                % old(self).script().len() as int] % len && final(self).position() == (
            old(self).position() % old(self).script().len() + 1) % old(self).script().len(),
    {
        if self.picks.len() == 0 {
            self.drawn = Ghost(self.drawn@.push(0nat));
            return 0;
        }
        let at = self.next % self.picks.len();
        let r = self.picks[at] % len;
        self.next = (at + 1) % self.picks.len();
        self.drawn = Ghost(self.drawn@.push(r as nat));
        r
    }
}

/// The codes of `bank` that differ from `prev`, in bank order.
pub open spec fn others(bank: Seq<Seq<char>>, prev: Seq<char>) -> Seq<Seq<char>>
    decreases bank.len(),
{
    if bank.len() == 0 {
        Seq::empty()
    } else {
        let front = others(bank.drop_last(), prev);
        if bank.last() != prev {
            front.push(bank.last())
        } else {
            front
        }
    }
}

/// How many draws a non-empty bank takes for a path of `rounds` hops: one
/// for each hop but the last.
pub open spec fn draws_needed(rounds: nat) -> nat {
    if rounds == 0 {
        0
    } else {
        (rounds - 1) as nat
    }
}

/// The first `n` hops of the path of `rounds` hops that `draws` select: each
/// hop but the last goes to the code at the drawn index among the codes of
/// `bank` other than the one it starts from; the last goes back to `original`.
pub open spec fn planned(
    original: Seq<char>,
    bank: Seq<Seq<char>>,
    rounds: nat,
    n: nat,
    draws: Seq<nat>,
) -> Seq<PairView>
    decreases n,
{
    if n == 0 {
        Seq::empty()
    } else {
        let front = planned(original, bank, rounds, (n - 1) as nat, draws);
        let prev = if n == 1 {
            original
        } else {
            front.last().1
        };
        let to = if n == rounds {
            original
        } else {
            others(bank, prev)[draws[n - 1] as int]
        };
        front.push((prev, to))
    }
}

proof fn lemma_planned_len(
    original: Seq<char>,
    bank: Seq<Seq<char>>,
    rounds: nat,
    n: nat,
    draws: Seq<nat>,
)
    ensures
        planned(original, bank, rounds, n, draws).len() == n,
    decreases n,
{
    if n > 0 {
        lemma_planned_len(original, bank, rounds, (n - 1) as nat, draws);
    }
}

/// Draws past the first `n` do not change the first `n` hops.
proof fn lemma_planned_prefix(
    original: Seq<char>,
    bank: Seq<Seq<char>>,
    rounds: nat,
    n: nat,
    draws: Seq<nat>,
    more: Seq<nat>,
)
    requires
        n <= draws.len(),
        draws.len() <= more.len(),
        forall|k: int| 0 <= k < draws.len() ==> more[k] == draws[k],
    ensures
        planned(original, bank, rounds, n, draws) == planned(original, bank, rounds, n, more),
    decreases n,
{
    if n > 0 {
        lemma_planned_prefix(original, bank, rounds, (n - 1) as nat, draws, more);
    }
}

/// The codes of `bank` that differ from `prev`, in bank order.
fn other_codes<'a>(bank: &[&'a str], prev: &String) -> (r: Vec<&'a str>)
    ensures
        codes_view(r@) == others(codes_view(bank@), prev@),
        forall|k: int| 0 <= k < r@.len() ==> r@[k]@ != prev@ && codes_view(bank@).contains(#[trigger] r@[k]@),
        has_other(codes_view(bank@), prev@) ==> r@.len() > 0,
{
    let ghost all = codes_view(bank@);
    let mut r: Vec<&'a str> = Vec::new();
    let mut j: usize = 0;
    while j < bank.len()
        invariant
            j <= bank@.len(),
            all == codes_view(bank@),
            codes_view(r@) == others(all.take(j as int), prev@),
            forall|k: int| 0 <= k < r@.len() ==> r@[k]@ != prev@ && codes_view(bank@).contains(#[trigger] r@[k]@),
            (exists|jj: int| 0 <= jj < j && bank@[jj]@ != prev@) ==> r@.len() > 0,
        decreases bank@.len() - j,
    {
        let code = String::from_str(bank[j]);
        proof {
            assert(all.take(j + 1).drop_last() =~= all.take(j as int));
            assert(all.take(j + 1).last() == bank@[j as int]@);
        }
        if !(code == *prev) {
            proof {
                assert(codes_view(bank@)[j as int] == bank@[j as int]@);
            }
            r.push(bank[j]);
            proof {
                assert(codes_view(r@) =~= others(all.take(j as int), prev@).push(bank@[j as int]@));
            }
        }
        j += 1;
    }
    proof {
        assert(all.take(j as int) =~= all);
        if has_other(codes_view(bank@), prev@) {
            let jj = choose|jj: int| 0 <= jj < codes_view(bank@).len() && codes_view(bank@)[jj] != prev@;
            assert(bank@[jj]@ != prev@);
        }
    }
    r
}

/// Plan a 'path' of languages, starting from and ending with
/// `original_lang`, with `rounds` hops whose intermediate languages are drawn
/// from `lang_bank` through `source`.
///
/// A hop never stays in its language, except the last one, which is forced
/// back to `original_lang`: each other hop goes to the code at the index that
/// `source` draws among the codes of the bank other than the one it starts
/// from, one draw per hop, in order. An empty bank gives the single hop
/// `original_lang -> original_lang` whatever `rounds` is; a non-empty bank and
/// no rounds give no hops.
pub fn plan_lang_path<S: IndexSource>(
    original_lang: &str,
    lang_bank: &[&str],
    rounds: usize,
    source: &mut S,
) -> (r: Vec<LanguagePair>)
    requires
        plannable(original_lang@, codes_view(lang_bank@), rounds as int),
    ensures
        lang_bank@.len() == 0 ==> path_view(r@) == seq![(original_lang@, original_lang@)],
        rounds == 1 ==> path_view(r@) == seq![(original_lang@, original_lang@)],
        lang_bank@.len() > 0 ==> r@.len() == rounds,
        r@.len() > 0 ==> r@[0].from_lang@ == original_lang@,
        r@.len() > 0 ==> r@[r@.len() - 1].to_lang@ == original_lang@,
        forall|i: int|
            0 <= i < r@.len() - 1 ==> #[trigger] r@[i].to_lang@ == r@[i + 1].from_lang@,
        forall|i: int|
            0 <= i < r@.len() - 1 ==> #[trigger] r@[i].to_lang@ != r@[i].from_lang@
                && codes_view(lang_bank@).contains(r@[i].to_lang@),
        lang_bank@.len() == 0 ==> final(source).drawn() == old(source).drawn(),
        lang_bank@.len() > 0 ==> final(source).drawn().len() == old(source).drawn().len()
            + draws_needed(rounds as nat) && final(source).drawn().subrange(
            0,
            old(source).drawn().len() as int,
        ) == old(source).drawn() && path_view(r@) == planned(
            original_lang@,
            codes_view(lang_bank@),
            rounds as nat,
            rounds as nat,
            final(source).drawn().skip(old(source).drawn().len() as int),
        ),
{
    if lang_bank.len() == 0 {
        let r = vec![LanguagePair::new(original_lang, original_lang)];
        proof {
            assert(path_view(r@) =~= seq![(original_lang@, original_lang@)]);
        }
        return r;
    }
    let ghost bank = codes_view(lang_bank@);
    let ghost o = original_lang@;
    let ghost start = source.drawn();
    let mut prev = String::from_str(original_lang);
    let mut langs: Vec<LanguagePair> = Vec::new();
    let mut i: usize = 0;
    while i < rounds
        invariant
            i <= rounds,
            lang_bank@.len() > 0,
            bank == codes_view(lang_bank@),
            o == original_lang@,
            plannable(original_lang@, bank, rounds as int),
            langs@.len() == i,
            i == 0 ==> prev@ == original_lang@,
            i > 0 ==> langs@[0].from_lang@ == original_lang@,
            i > 0 ==> langs@[i - 1].to_lang@ == prev@,
            i == rounds && i > 0 ==> prev@ == original_lang@,
            forall|k: int|
                0 <= k < langs@.len() - 1 ==> #[trigger] langs@[k].to_lang@ == langs@[k + 1].from_lang@,
            forall|k: int|
                0 <= k < langs@.len() && k < rounds - 1 ==> #[trigger] langs@[k].to_lang@
                    != langs@[k].from_lang@ && bank.contains(langs@[k].to_lang@),
            source.drawn().len() == start.len() + if i > 0 && i == rounds {
                i - 1
            } else {
                i as int
            },
            source.drawn().subrange(0, start.len() as int) == start,
            path_view(langs@) == planned(
                o,
                bank,
                rounds as nat,
                i as nat,
                source.drawn().skip(start.len() as int),
            ),
        decreases rounds - i,
    {
        let ghost d0 = source.drawn().skip(start.len() as int);
        let ghost before = path_view(langs@);
        let ghost prev_v = prev@;
        proof {
            lemma_planned_len(o, bank, rounds as nat, i as nat, d0);
        }
        let next = if i == rounds - 1 {
            String::from_str(original_lang)
        } else {
            proof {
                if !has_two_distinct(bank) {
                    assert(rounds == 2 && has_other(bank, original_lang@));
                } else {
                    let (a, b) = choose|a: int, b: int|
                        0 <= a < bank.len() && 0 <= b < bank.len() && bank[a] != bank[b];
                    if bank[a] != prev@ {
                        assert(has_other(bank, prev@));
                    } else {
                        assert(bank[b] != prev@);
                    }
                }
            }
            let candidates = other_codes(lang_bank, &prev);
            let k = source.pick(candidates.len());
            let chosen = String::from_str(candidates[k]);
            proof {
                let d1 = source.drawn().skip(start.len() as int);
                assert(d1 =~= d0.push(k as nat));
                assert(source.drawn().subrange(0, start.len() as int) =~= start);
                lemma_planned_prefix(o, bank, rounds as nat, i as nat, d0, d1);
                assert(codes_view(candidates@)[k as int] == candidates@[k as int]@);
                assert(planned(o, bank, rounds as nat, (i + 1) as nat, d1) == before.push(
                    (prev_v, chosen@),
                ));
            }
            chosen
        };
        let hop = LanguagePair { from_lang: prev, to_lang: next.clone() };
        langs.push(hop);
        proof {
            assert(path_view(langs@) =~= before.push((prev_v, next@)));
        }
        prev = next;
        i += 1;
    }
    proof {
        if rounds == 1 {
            assert(path_view(langs@) =~= seq![(original_lang@, original_lang@)]);
        }
    }
    langs
}

/// Get a random 'path' of languages, starting from and ending with
/// `original_lang`. The intermediate languages are drawn uniformly from
/// `lang_bank`, never twice in a row, with a total of `rounds` hops.
pub fn get_random_lang_path(original_lang: &str, lang_bank: &[&str], rounds: usize) -> (r: Vec<
    LanguagePair,
>)
    requires
        plannable(original_lang@, codes_view(lang_bank@), rounds as int),
    ensures
        lang_bank@.len() == 0 ==> path_view(r@) == seq![(original_lang@, original_lang@)],
        rounds == 1 ==> path_view(r@) == seq![(original_lang@, original_lang@)],
        lang_bank@.len() > 0 ==> r@.len() == rounds,
        r@.len() > 0 ==> r@[0].from_lang@ == original_lang@,
        r@.len() > 0 ==> r@[r@.len() - 1].to_lang@ == original_lang@,
        forall|i: int|
            0 <= i < r@.len() - 1 ==> #[trigger] r@[i].to_lang@ == r@[i + 1].from_lang@,
        forall|i: int|
            0 <= i < r@.len() - 1 ==> #[trigger] r@[i].to_lang@ != r@[i].from_lang@
                && codes_view(lang_bank@).contains(r@[i].to_lang@),
{
    let mut source = ThreadRandom::new();
    plan_lang_path(original_lang, lang_bank, rounds, &mut source)
}

/// Suspends the caller between two translation requests.
pub trait Pacer {
    /// Wait `millis` milliseconds before the next request.
    fn pause(&self, millis: u64);
}

/// A pacer together with the pauses asked of it so far.
pub struct Pacing<P> {
    pacer: P,
    requested: Ghost<Seq<u64>>,
}

/// `n` pauses of `millis` milliseconds each.
pub open spec fn repeated(millis: u64, n: nat) -> Seq<u64>
    decreases n,
{
    if n == 0 {
        Seq::empty()
    } else {
        repeated(millis, (n - 1) as nat).push(millis)
    }
}

/// How many pauses fall between `hops` requests: one fewer than the hops.
pub open spec fn gaps(hops: nat) -> nat {
    if hops == 0 {
        0
    } else {
        (hops - 1) as nat
    }
}

impl<P: Pacer> Pacing<P> {
    /// The pauses asked for so far, oldest first, in milliseconds.
    pub closed spec fn requested(&self) -> Seq<u64> {
        self.requested@
    }

    /// Paces through `pacer`, with no pause asked for yet.
    pub fn new(pacer: P) -> (r: Pacing<P>)
        ensures
            r.requested() == Seq::<u64>::empty(),
    {
        Pacing { pacer, requested: Ghost(Seq::empty()) }
    }

    /// Wait `millis` milliseconds through the pacer.
    pub fn pause(&mut self, millis: u64)
        ensures
            final(self).requested() == old(self).requested().push(millis),
    {
        self.pacer.pause(millis);
        self.requested = Ghost(self.requested@.push(millis));
    }

    /// The pacer itself.
    pub fn pacer(&self) -> &P {
        &self.pacer
    }
}

/// Whether `outcome` is one that translating `text` along `path` with `t`
/// may end in: a left-to-right fold of `translate` over the hops, where an
/// error stops the walk and is the outcome of the whole path.
pub open spec fn walk<T: Translator + ?Sized>(
    t: &T,
    text: Seq<char>,
    path: Seq<PairView>,
    outcome: OutcomeView,
) -> bool
    decreases path.len(),
{
    if path.len() == 0 {
        outcome == OutcomeView::Ok(text)
    } else {
        let front = path.drop_last();
        ||| outcome is Err && walk(t, text, front, outcome)
        ||| exists|mid: Seq<char>|
            walk(t, text, front, OutcomeView::Ok(mid)) && #[trigger] t.may_answer(
                mid,
                path.last(),
                outcome,
            )
    }
}

/// An error met on the way is the outcome of any longer walk: once a hop
/// fails, the hops after it change nothing.
pub proof fn lemma_error_persists<T: Translator + ?Sized>(
    t: &T,
    text: Seq<char>,
    path: Seq<PairView>,
    rest: Seq<PairView>,
    error: OutcomeView,
)
    requires
        error is Err,
        walk(t, text, path, error),
    ensures
        walk(t, text, path + rest, error),
    decreases rest.len(),
{
    if rest.len() == 0 {
        assert(path + rest =~= path);
    } else {
        lemma_error_persists(t, text, path, rest.drop_last(), error);
        assert((path + rest).drop_last() =~= path + rest.drop_last());
    }
}

/// An empty path leaves the text as it is.
pub proof fn lemma_empty_walk<T: Translator + ?Sized>(
    t: &T,
    text: Seq<char>,
    outcome: OutcomeView,
)
    ensures
        walk(t, text, Seq::<PairView>::empty(), outcome) <==> outcome == OutcomeView::Ok(text),
{
}

/// Mangle the `original_text` by translating it for many times with `translator`,
/// hop by hop along `lang_path`, pausing `delay` milliseconds through `pacing`
/// between two requests, and never before the first or after the last.
///
/// The first error ends the walk and is returned as the translator gave it.
/// An empty path returns the text unchanged, without any request or pause.
pub fn mangle<T: Translator + ?Sized, P: Pacer>(
    translator: &T,
    original_text: &str,
    lang_path: &[LanguagePair],
    delay: u64,
    pacing: &mut Pacing<P>,
) -> (r: Result<String, TranslationError>)
    ensures
        r is Ok ==> final(pacing).requested() == old(pacing).requested() + repeated(
            delay,
            gaps(lang_path@.len() as nat),
        ),
        r is Err ==> exists|n: nat|
            n <= gaps(lang_path@.len() as nat) && final(pacing).requested() == old(
                pacing,
            ).requested() + #[trigger] repeated(delay, n),
        walk(translator, original_text@, path_view(lang_path@), outcome_view(r)),
        lang_path@.len() == 0 ==> r is Ok && r->Ok_0@ == original_text@,
        lang_path@.len() > 0 && !(translator.supported_codes().contains(lang_path@[0].from_lang@)
            && translator.supported_codes().contains(lang_path@[0].to_lang@)) ==> is_unsupported(
            outcome_view(r),
        ),
{
    let ghost path = path_view(lang_path@);
    let ghost start = pacing.requested();
    let mut current = String::from_str(original_text);
    let mut i: usize = 0;
    while i < lang_path.len()
        invariant
            i <= lang_path@.len(),
            path == path_view(lang_path@),
            walk(translator, original_text@, path.take(i as int), OutcomeView::Ok(current@)),
            i > 0 ==> translator.supported_codes().contains(lang_path@[0].from_lang@)
                && translator.supported_codes().contains(lang_path@[0].to_lang@),
            start == old(pacing).requested(),
            pacing.requested() == start + repeated(delay, gaps(i as nat)),
        decreases lang_path@.len() - i,
    {
        if i > 0 {
            pacing.pause(delay);
            proof {
                assert(start + repeated(delay, gaps((i + 1) as nat)) =~= (start + repeated(
                    delay,
                    gaps(i as nat),
                )).push(delay));
            }
        }
        assert(pacing.requested() == start + repeated(delay, gaps((i + 1) as nat)));
        let answer = translator.translate(current.as_str(), &lang_path[i]);
        proof {
            assert(path.take(i + 1).drop_last() =~= path.take(i as int));
            assert(path.take(i + 1).last() == lang_path@[i as int]@);
            assert(walk(translator, original_text@, path.take(i + 1), outcome_view(answer)));
        }
        match answer {
            Ok(text) => {
                current = text;
            },
            Err(e) => {
                proof {
                    let out = outcome_view(Err(e));
                    lemma_error_persists(translator, original_text@, path.take(i + 1), path.skip(i + 1), out);
                    assert(path.take(i + 1) + path.skip(i + 1) =~= path);
                    let n = gaps((i + 1) as nat);
                    assert(n <= gaps(lang_path@.len() as nat) && pacing.requested() == start
                        + repeated(delay, n));
                }
                return Err(e);
            },
        }
        i += 1;
    }
    proof {
        assert(path.take(i as int) =~= path);
    }
    Ok(current)
}

} // verus!
