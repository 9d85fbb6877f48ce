use vstd::prelude::*;

verus! {

/// The contents that the recorder stores when it watches a sequence of
/// clipboard reads, starting with `last` as the last value it has seen: a
/// read equal to the last seen value is skipped, any other read is stored
/// and becomes the new last seen value.
pub open spec fn stored_contents(last: Seq<char>, reads: Seq<Seq<char>>) -> Seq<Seq<char>>
    decreases reads.len(),
{
    if reads.len() == 0 {
        Seq::empty()
    } else if reads[0] == last {
        stored_contents(last, reads.drop_first())
    } else {
        seq![reads[0]] + stored_contents(reads[0], reads.drop_first())
    }
}

/// No two entries stored one after the other hold the same content, and the
/// first stored content differs from the value last seen before the reads.
pub proof fn lemma_no_consecutive_duplicates(last: Seq<char>, reads: Seq<Seq<char>>)
    ensures
        forall|i: int|
            0 <= i && i + 1 < stored_contents(last, reads).len() ==> (#[trigger] stored_contents(
                last,
                reads,
            )[i]) != stored_contents(last, reads)[i + 1],
        stored_contents(last, reads).len() > 0 ==> stored_contents(last, reads)[0] != last,
    decreases reads.len(),
{
    if reads.len() == 0 {
    } else if reads[0] == last {
        lemma_no_consecutive_duplicates(last, reads.drop_first());
    } else {
        let rest = stored_contents(reads[0], reads.drop_first());
        lemma_no_consecutive_duplicates(reads[0], reads.drop_first());
        let s = stored_contents(last, reads);
        assert(s == seq![reads[0]] + rest);
        assert(s[0] == reads[0]);
        assert forall|i: int| 0 <= i && i + 1 < s.len() implies (#[trigger] s[i]) != s[i + 1] by {
            if i == 0 {
                assert(s[1] == rest[0]);
            } else {
                assert(s[i] == rest[i - 1]);
                assert(s[i + 1] == rest[i]);
            }
        }
    }
}

/// The recorder's in-memory state: the last clipboard value it has seen.
/// It starts out empty, so a first read of the empty string is not stored.
pub struct Recorder {
    pub last_seen: String,
}

impl Recorder {
    /// A recorder that has seen nothing yet.
    pub fn new() -> (r: Recorder)
        ensures
            r.last_seen@ == Seq::<char>::empty(),
    {
        Recorder { last_seen: String::new() }
    }

    /// Decide what to do with one clipboard read: store it exactly when it
    /// differs from the last seen value, which it then becomes.
    pub fn observe(&mut self, text: String) -> (store: bool)
        ensures
            store == (text@ != old(self).last_seen@),
            final (self).last_seen@ == text@,
    {
        if text == self.last_seen {
            false
        } else {
            self.last_seen = text;
            true
        }
    }
}

/// Run a fresh recorder over a whole sequence of clipboard reads and return
/// the contents it would store, in order.
pub fn record_sequence(reads: &Vec<String>) -> (stored: Vec<String>)
    ensures
        stored@.map_values(|s: String| s@) == stored_contents(
            Seq::<char>::empty(),
            reads@.map_values(|s: String| s@),
        ),
{
    let ghost all = reads@.map_values(|s: String| s@);
    let mut recorder = Recorder::new();
    let mut stored: Vec<String> = Vec::new();
    let mut i: usize = 0;
    proof {
        assert(all.skip(0) =~= all);
        assert(stored@.map_values(|s: String| s@) + stored_contents(recorder.last_seen@, all)
            =~= stored_contents(Seq::<char>::empty(), all));
    }
    while i < reads.len()
        invariant
            i <= reads.len(),
            all == reads@.map_values(|s: String| s@),
            stored_contents(Seq::<char>::empty(), all) == stored@.map_values(|s: String| s@)
                + stored_contents(recorder.last_seen@, all.skip(i as int)),
        decreases reads.len() - i,
    {
        let ghost pending = all.skip(i as int);
        let text = reads[i].clone();
        let ghost last0 = recorder.last_seen@;
        let ghost stored0 = stored@;
        proof {
            assert(pending[0] == all[i as int]);
            assert(pending[0] == text@);
            assert(pending.drop_first() =~= all.skip(i as int + 1));
        }
        let store = recorder.observe(text.clone());
        if store {
            stored.push(text);
            proof {
                assert(stored@.map_values(|s: String| s@) =~= stored0.map_values(|s: String| s@)
                    + seq![pending[0]]);
                assert(stored_contents(last0, pending) == seq![pending[0]] + stored_contents(
                    pending[0],
                    pending.drop_first(),
                ));
                assert(stored0.map_values(|s: String| s@) + stored_contents(last0, pending)
                    =~= stored@.map_values(|s: String| s@) + stored_contents(
                    recorder.last_seen@,
                    all.skip(i as int + 1),
                ));
            }
        } else {
            proof {
                assert(stored_contents(last0, pending) == stored_contents(
                    last0,
                    pending.drop_first(),
                ));
            }
        }
        i = i + 1;
    }
    proof {
        assert(all.skip(i as int) =~= Seq::<Seq<char>>::empty());
        assert(stored_contents(recorder.last_seen@, all.skip(i as int)) =~= Seq::<
            Seq<char>,
        >::empty());
        assert(stored@.map_values(|s: String| s@) + Seq::<Seq<char>>::empty() =~= stored@
            .map_values(|s: String| s@));
    }
    stored
}

} // verus!
