//! The browser's navigation state: the current address and the history of
//! addresses left behind.

use vstd::prelude::*;
use crate::text::{str_eq, string_views};

verus! {

/// The address shown and the addresses visited before it, oldest first.
pub struct BrowserState {
    pub current_url: String,
    pub history: Vec<String>,
}

/// The navigation state as values: (current address, history).
pub open spec fn state_view(s: BrowserState) -> (Seq<char>, Seq<Seq<char>>) {
    (s.current_url@, string_views(s.history@))
}

/// One navigation to `url`: nothing changes when `url` is already current;
/// otherwise a non-empty current address moves to the end of the history and
/// `url` becomes current.
pub open spec fn navigate_step(s: (Seq<char>, Seq<Seq<char>>), url: Seq<char>) -> (
    Seq<char>,
    Seq<Seq<char>>,
) {
    if s.0 == url {
        s
    } else if s.0.len() == 0 {
        (url, s.1)
    } else {
        (url, s.1.push(s.0))
    }
}

impl Default for BrowserState {
    fn default() -> (r: Self)
        ensures
            r.current_url@ == Seq::<char>::empty(),
            r.history@.len() == 0,
    {
        BrowserState { current_url: String::new(), history: Vec::new() }
    }
}

/// A browser's navigation state and its rules of change.
pub struct Browser {
    state: BrowserState,
}

impl View for Browser {
    type V = (Seq<char>, Seq<Seq<char>>);

    closed spec fn view(&self) -> (Seq<char>, Seq<Seq<char>>) {
        state_view(self.state)
    }
}

impl Browser {
    /// A browser that starts in `state`.
    pub fn new(state: BrowserState) -> (r: Self)
        ensures
            r@ == state_view(state),
    {
        Browser { state }
    }

    /// Navigates to `url`.
    pub fn navigate(&mut self, url: &str)
        ensures
            final(self)@ == navigate_step(old(self)@, url@),
    {
        if str_eq(self.state.current_url.as_str(), url) {
            return;
        }
        if self.state.current_url.as_str().unicode_len() > 0 {
            let previous = self.state.current_url.clone();
            self.state.history.push(previous);
            assert(string_views(self.state.history@) =~= string_views(old(self).state.history@).push(
                old(self).state.current_url@,
            ));
        }
        self.state.current_url = String::from_str(url);
    }

    /// The addresses left behind, oldest first.
    pub fn history(&self) -> (r: &[String])
        ensures
            string_views(r@) == self@.1,
    {
        self.state.history.as_slice()
    }

    /// The whole navigation state.
    pub fn state(&self) -> (r: &BrowserState)
        ensures
            state_view(*r) == self@,
    {
        &self.state
    }
}

/// Navigating to the address already shown changes nothing, so navigating
/// twice to the same address is the same as navigating once.
pub proof fn lemma_navigate_idempotent(s: (Seq<char>, Seq<Seq<char>>), url: Seq<char>)
    ensures
        navigate_step(navigate_step(s, url), url) == navigate_step(s, url),
        navigate_step(s, url).0 == url,
{
}

/// History only grows: the old history is kept as a prefix, and at most the
/// previous address is added.
pub proof fn lemma_history_grows(s: (Seq<char>, Seq<Seq<char>>), url: Seq<char>)
    ensures
        navigate_step(s, url).1.len() <= s.1.len() + 1,
        navigate_step(s, url).1.take(s.1.len() as int) == s.1,
        navigate_step(s, url).1.len() == s.1.len() + 1 ==> navigate_step(s, url).1.last() == s.0,
{
    assert(navigate_step(s, url).1.take(s.1.len() as int) =~= s.1);
}

/// No navigation adds an empty address to the history.
pub proof fn lemma_history_entries_nonempty(s: (Seq<char>, Seq<Seq<char>>), url: Seq<char>)
    requires
        forall|i: int| 0 <= i < s.1.len() ==> s.1[i].len() > 0,
    ensures
        forall|i: int|
            0 <= i < navigate_step(s, url).1.len() ==> navigate_step(s, url).1[i].len() > 0,
{
}

/// No two neighbouring entries of `h` are equal.
pub open spec fn no_repeats(h: Seq<Seq<char>>) -> bool {
    forall|i: int| 0 <= i < h.len() - 1 ==> #[trigger] h[i] != h[i + 1]
}

/// The history holds no address twice in a row, and while it is not empty its
/// latest entry differs from the (non-empty) address shown.
pub open spec fn history_tidy(s: (Seq<char>, Seq<Seq<char>>)) -> bool {
    &&& no_repeats(s.1)
    &&& s.1.len() > 0 ==> s.1.last() != s.0 && s.0.len() > 0
}

/// Navigating to non-empty addresses keeps the history tidy: it never holds
/// the same address twice in a row, nor ends with the address shown.
pub proof fn lemma_history_stays_tidy(s: (Seq<char>, Seq<Seq<char>>), url: Seq<char>)
    requires
        history_tidy(s),
        url.len() > 0,
    ensures
        history_tidy(navigate_step(s, url)),
{
    let n = navigate_step(s, url);
    if s.0 != url && s.0.len() > 0 {
        assert forall|i: int| 0 <= i < n.1.len() - 1 implies #[trigger] n.1[i] != n.1[i + 1] by {
            if i < s.1.len() - 1 {
                assert(n.1[i] == s.1[i] && n.1[i + 1] == s.1[i + 1]);
            }
        }
    }
}

/// The state after navigating from `s` to each of `urls` in turn.
pub open spec fn navigate_all(s: (Seq<char>, Seq<Seq<char>>), urls: Seq<Seq<char>>) -> (
    Seq<char>,
    Seq<Seq<char>>,
)
    decreases urls.len(),
{
    if urls.len() == 0 {
        s
    } else {
        navigate_step(navigate_all(s, urls.drop_last()), urls.last())
    }
}

/// `us` with each run of equal neighbours kept once.
pub open spec fn dedup_consecutive(us: Seq<Seq<char>>) -> Seq<Seq<char>>
    decreases us.len(),
{
    if us.len() == 0 {
        us
    } else {
        let kept = dedup_consecutive(us.drop_last());
        if kept.len() > 0 && kept.last() == us.last() {
            kept
        } else {
            kept.push(us.last())
        }
    }
}

/// What a run of navigations leaves: starting with no address and no
/// history, after navigating to each of some non-empty addresses in turn, the
/// address shown is the last one, and the history holds the addresses before
/// it with repeated neighbours kept once; no entry is empty and no two
/// neighbouring entries are equal.
pub proof fn lemma_history_after_navigations(urls: Seq<Seq<char>>)
    requires
        urls.len() > 0,
        forall|i: int| 0 <= i < urls.len() ==> #[trigger] urls[i].len() > 0,
    ensures
        dedup_consecutive(urls).len() > 0,
        navigate_all((Seq::empty(), Seq::empty()), urls) == (
            dedup_consecutive(urls).last(),
            dedup_consecutive(urls).drop_last(),
        ),
        forall|i: int|
            0 <= i < dedup_consecutive(urls).len() ==> #[trigger] dedup_consecutive(urls)[i].len()
                > 0,
        no_repeats(dedup_consecutive(urls)),
        history_tidy(navigate_all((Seq::empty(), Seq::empty()), urls)),
    decreases urls.len(),
{
    let init = urls.drop_last();
    let u = urls.last();
    let d = dedup_consecutive(urls);
    if init.len() == 0 {
        assert(dedup_consecutive(init) =~= Seq::<Seq<char>>::empty());
        assert(d =~= seq![u]);
        assert(d.drop_last() =~= Seq::<Seq<char>>::empty());
    } else {
        assert forall|i: int| 0 <= i < init.len() implies #[trigger] init[i].len() > 0 by {
            assert(init[i] == urls[i]);
        }
        lemma_history_after_navigations(init);
        let k = dedup_consecutive(init);
        assert(k.drop_last().push(k.last()) =~= k);
        if k.last() != u {
            assert(d =~= k.push(u));
            assert(d.drop_last() =~= k);
            assert forall|i: int| 0 <= i < d.len() - 1 implies #[trigger] d[i] != d[i + 1] by {
                if i < k.len() - 1 {
                    assert(d[i] == k[i] && d[i + 1] == k[i + 1]);
                }
            }
        }
        lemma_history_stays_tidy(navigate_all((Seq::empty(), Seq::empty()), init), u);
    }
}

} // verus!
