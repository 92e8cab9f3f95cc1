//! Routes task results back to the platform adapter that serves them.
//!
//! Each platform registers a sender under its name; a result for a platform
//! goes to the first sender registered under that name.

use vstd::prelude::*;

verus! {

/// Index of the first sender registered under `platform`, or -1 when there is none.
pub open spec fn first_match<S>(senders: Seq<(Seq<char>, S)>, platform: Seq<char>) -> int
    decreases senders.len(),
{
    if senders.len() == 0 {
        -1
    } else {
        let before = first_match(senders.drop_last(), platform);
        if before >= 0 {
            before
        } else if senders.last().0 == platform {
            senders.len() - 1
        } else {
            -1
        }
    }
}

/// The sender that a result for `platform` goes to: the first one registered under that name.
pub open spec fn sender_for<S>(senders: Seq<(Seq<char>, S)>, platform: Seq<char>) -> Option<S> {
    let i = first_match(senders, platform);
    if i < 0 {
        None
    } else {
        Some(senders[i].1)
    }
}

/// What `first_match` denotes.
pub proof fn lemma_first_match<S>(senders: Seq<(Seq<char>, S)>, platform: Seq<char>)
    ensures
        -1 <= first_match(senders, platform) < senders.len(),
        first_match(senders, platform) >= 0 ==> senders[first_match(senders, platform)].0 == platform,
        forall|j: int| 0 <= j < senders.len() && (j < first_match(senders, platform) || first_match(senders, platform) == -1)
            ==> senders[j].0 != platform,
    decreases senders.len(),
{
    if senders.len() > 0 {
        let d = senders.drop_last();
        lemma_first_match(d, platform);
        assert forall|j: int| 0 <= j < d.len() implies d[j] == senders[j] by {}
    }
}

/// Registering one more sender leaves the senders found before as they were, and serves
/// its platform when nothing served it yet.
pub proof fn lemma_first_match_push<S>(senders: Seq<(Seq<char>, S)>, e: (Seq<char>, S), platform: Seq<char>)
    ensures
        first_match(senders.push(e), platform) == if first_match(senders, platform) >= 0 {
            first_match(senders, platform)
        } else if e.0 == platform {
            senders.len() as int
        } else {
            -1
        },
        sender_for(senders.push(e), platform) == if first_match(senders, platform) >= 0 {
            sender_for(senders, platform)
        } else if e.0 == platform {
            Some(e.1)
        } else {
            None
        },
{
    assert(senders.push(e).drop_last() =~= senders);
    lemma_first_match(senders, platform);
}

/// Taking out the senders of one platform leaves where another platform's results go.
pub proof fn lemma_sender_for_filter<S>(senders: Seq<(Seq<char>, S)>, gone: Seq<char>, platform: Seq<char>)
    requires
        gone != platform,
    ensures
        sender_for(senders.filter(|e: (Seq<char>, S)| e.0 != gone), platform) == sender_for(senders, platform),
    decreases senders.len(),
{
    let pred = |e: (Seq<char>, S)| e.0 != gone;
    if senders.len() == 0 {
        assert(senders.filter(pred) =~= senders) by {
            reveal(Seq::filter);
        }
    } else {
        let d = senders.drop_last();
        let x = senders.last();
        lemma_sender_for_filter(d, gone, platform);
        assert(senders =~= d.push(x));
        d.lemma_filter_push(x, pred);
        lemma_first_match_push(d, x, platform);
        lemma_first_match_push(d.filter(pred), x, platform);
        lemma_first_match(d, platform);
        lemma_first_match(d.filter(pred), platform);
    }
}

/// After the senders of a platform are taken out, its results go nowhere.
pub proof fn lemma_filter_serves_none<S>(senders: Seq<(Seq<char>, S)>, gone: Seq<char>)
    ensures
        first_match(senders.filter(|e: (Seq<char>, S)| e.0 != gone), gone) < 0,
{
    let t = senders.filter(|e: (Seq<char>, S)| e.0 != gone);
    lemma_first_match(t, gone);
    if first_match(t, gone) >= 0 {
        senders.lemma_filter_pred(|e: (Seq<char>, S)| e.0 != gone, first_match(t, gone));
    }
}

/// `r` is the sender a result for `platform` goes to: the first one registered under that
/// name, or none when no sender has that name.
pub open spec fn is_dispatch_target<S>(senders: Seq<(Seq<char>, S)>, platform: Seq<char>, r: Option<&S>) -> bool {
    match sender_for(senders, platform) {
        None => r is None,
        Some(x) => r matches Some(s) && *s == x,
    }
}

/// Registered senders, in registration order, each under its platform's name.
pub struct Dispatcher<S> {
    senders: Vec<(String, S)>,
}

impl<S> View for Dispatcher<S> {
    type V = Seq<(Seq<char>, S)>;

    closed spec fn view(&self) -> Seq<(Seq<char>, S)> {
        self.senders@.map_values(|e: (String, S)| (e.0@, e.1))
    }
}

impl<S> Dispatcher<S> {
    pub fn new() -> (d: Self)
        ensures
            d@ == Seq::<(Seq<char>, S)>::empty(),
    {
        let d = Dispatcher { senders: Vec::new() };
        assert(d@ =~= Seq::<(Seq<char>, S)>::empty());
        d
    }

    /// Register a platform sender.
    pub fn register(&mut self, platform: &str, sender: S)
        ensures
            final(self)@ == old(self)@.push((platform@, sender)),
    {
        let name = platform.to_owned();
        self.senders.push((name, sender));
        assert(self@ =~= old(self)@.push((platform@, sender)));
    }

    /// Unregister every sender of a platform (on disconnect).
    pub fn unregister(&mut self, platform: &str)
        ensures
            final(self)@ == old(self)@.filter(|e: (Seq<char>, S)| e.0 != platform@),
            sender_for(final(self)@, platform@) is None,
    {
        let ghost orig = self@;
        let ghost pred = |e: (Seq<char>, S)| e.0 != platform@;
        let name = platform.to_owned();
        let mut rest: Vec<(String, S)> = Vec::new();
        std::mem::swap(&mut rest, &mut self.senders);
        let ghost n = rest@.len();
        assert(self@ =~= orig.take(0).filter(pred));
        while rest.len() > 0
            invariant
                n == orig.len(),
                rest@.len() <= n,
                forall|j: int| 0 <= j < rest@.len() ==>
                    (#[trigger] rest@[j]).0@ == orig[n - rest@.len() + j].0
                    && rest@[j].1 == orig[n - rest@.len() + j].1,
                self@ == orig.take(n - rest@.len()).filter(pred),
                name@ == platform@,
                pred == (|e: (Seq<char>, S)| e.0 != platform@),
            decreases rest.len(),
        {
            let ghost k = n - rest@.len();
            let ghost rest_before = rest@;
            let e = rest.remove(0);
            let ghost ev = (e.0@, e.1);
            assert(ev == orig[k]);
            assert(orig.take(k + 1) =~= orig.take(k).push(ev));
            proof { orig.take(k).lemma_filter_push(ev, pred); }
            let ghost before = self@;
            if !(e.0 == name) {
                self.senders.push(e);
                assert(self@ =~= before.push(ev));
            }
            assert forall|j: int| 0 <= j < rest@.len() implies
                (#[trigger] rest@[j]).0@ == orig[n - rest@.len() + j].0
                && rest@[j].1 == orig[n - rest@.len() + j].1 by {
                assert(rest@[j] == rest_before[j + 1]);
            }
        }
        assert(orig.take(n as int) =~= orig);
        proof {
            lemma_first_match(self@, platform@);
            if first_match(self@, platform@) >= 0 {
                orig.lemma_filter_pred(pred, first_match(self@, platform@));
            }
        }
    }

    /// The sender a result for `platform` goes to: the first one registered under that name.
    pub fn dispatch(&self, platform: &str) -> (r: Option<&S>)
        ensures
            is_dispatch_target(self@, platform@, r),
    {
        proof { lemma_first_match(self@, platform@); }
        let name = platform.to_owned();
        let mut i: usize = 0;
        while i < self.senders.len()
            invariant
                0 <= i <= self.senders@.len(),
                name@ == platform@,
                forall|j: int| 0 <= j < i ==> self@[j].0 != platform@,
            decreases self.senders@.len() - i,
        {
            if self.senders[i].0 == name {
                proof {
                    lemma_first_match(self@, platform@);
                    assert(self@[i as int].0 == platform@);
                    if first_match(self@, platform@) != i {
                        assert(first_match(self@, platform@) > i || first_match(self@, platform@) == -1);
                    }
                }
                return Some(&self.senders[i].1);
            }
            i = i + 1;
        }
        proof {
            lemma_first_match(self@, platform@);
            if first_match(self@, platform@) >= 0 {
                assert(self@[first_match(self@, platform@)].0 == platform@);
            }
        }
        None
    }
}

} // verus!
