use vstd::prelude::*;

verus! {

// The listing output is split on the two-character CRLF line terminator
// into lines, and each line on commas into fields.  Both specs walk the
// text from the right, so that a left-to-right scan can keep "finished
// pieces plus the piece under construction" as its loop invariant.

/// The pieces of `s` delimited by commas, in order.  Splitting never yields
/// an empty sequence: text without a comma is one piece.
pub open spec fn split_comma(s: Seq<char>) -> Seq<Seq<char>>
    decreases s.len(),
{
    if s.len() == 0 {
        seq![Seq::<char>::empty()]
    } else {
        let r = split_comma(s.drop_last());
        if s.last() == ',' {
            r.push(Seq::empty())
        } else {
            r.update(r.len() - 1, r.last().push(s.last()))
        }
    }
}

/// Whether `s` ends with the two-character CRLF line terminator.
pub open spec fn crlf_ended(s: Seq<char>) -> bool {
    s.len() >= 2 && s[s.len() - 2] == '\r' && s[s.len() - 1] == '\n'
}

/// The pieces of `s` delimited by CRLF terminators, in order.
pub open spec fn split_crlf(s: Seq<char>) -> Seq<Seq<char>>
    decreases s.len(),
{
    if s.len() == 0 {
        seq![Seq::<char>::empty()]
    } else if crlf_ended(s) {
        split_crlf(s.take(s.len() - 2)).push(Seq::empty())
    } else {
        let r = split_crlf(s.drop_last());
        r.update(r.len() - 1, r.last().push(s.last()))
    }
}

pub proof fn lemma_split_comma_len(s: Seq<char>)
    ensures
        split_comma(s).len() >= 1,
    decreases s.len(),
{
    if s.len() > 0 {
        lemma_split_comma_len(s.drop_last());
    }
}

pub proof fn lemma_split_crlf_len(s: Seq<char>)
    ensures
        split_crlf(s).len() >= 1,
    decreases s.len(),
{
    if s.len() == 0 {
    } else if crlf_ended(s) {
        lemma_split_crlf_len(s.take(s.len() - 2));
    } else {
        lemma_split_crlf_len(s.drop_last());
    }
}

/// The last piece is empty exactly when the text is empty or ends with a
/// terminator; otherwise it ends with the text's last character.
proof fn lemma_split_crlf_last(s: Seq<char>)
    ensures
        s.len() == 0 ==> split_crlf(s).last() =~= Seq::<char>::empty(),
        s.len() > 0 && crlf_ended(s) ==> split_crlf(s).last() =~= Seq::<char>::empty(),
        s.len() > 0 && !crlf_ended(s) ==> split_crlf(s).last().len() > 0 && split_crlf(
            s,
        ).last().last() == s.last(),
{
    if s.len() > 0 && !crlf_ended(s) {
        lemma_split_crlf_len(s.drop_last());
    }
}

/// Splits a line on commas into its fields.
pub fn split_comma_exec(s: &Vec<char>) -> (out: Vec<Vec<char>>)
    ensures
        out.deep_view() == split_comma(s@),
{
    let mut done: Vec<Vec<char>> = Vec::new();
    let mut cur: Vec<char> = Vec::new();
    let mut i: usize = 0;
    proof {
        assert(s@.take(0) =~= Seq::<char>::empty());
        assert(split_comma(s@.take(0)) =~~= done.deep_view().push(cur@));
    }
    while i < s.len()
        invariant
            i <= s@.len(),
            split_comma(s@.take(i as int)) =~~= done.deep_view().push(cur@),
        decreases s@.len() - i,
    {
        let c = s[i];
        proof {
            assert(s@.take(i + 1).drop_last() =~= s@.take(i as int));
            assert(s@.take(i + 1).last() == s@[i as int]);
            lemma_split_comma_len(s@.take(i as int));
        }
        let ghost prev = split_comma(s@.take(i as int));
        if c == ',' {
            done.push(cur);
            cur = Vec::new();
            proof {
                assert(split_comma(s@.take(i + 1)) =~= prev.push(Seq::<char>::empty()));
                assert(done.deep_view() =~~= prev);
                assert(split_comma(s@.take(i + 1)) =~~= done.deep_view().push(cur@));
            }
        } else {
            let ghost old_cur = cur@;
            let ghost old_done = done.deep_view();
            cur.push(c);
            proof {
                assert(prev.last() == old_cur);
                assert(split_comma(s@.take(i + 1)) =~= prev.update(
                    prev.len() - 1,
                    old_cur.push(s@[i as int]),
                ));
                assert(prev.update(prev.len() - 1, old_cur.push(s@[i as int])) =~~= old_done.push(
                    cur@,
                ));
            }
        }
        i += 1;
    }
    proof {
        assert(s@.take(s@.len() as int) =~= s@);
    }
    done.push(cur);
    proof {
        assert(done.deep_view() =~~= split_comma(s@));
    }
    done
}

/// Splits decoded listing output on CRLF terminators into its lines.
pub fn split_crlf_exec(s: &Vec<char>) -> (out: Vec<Vec<char>>)
    ensures
        out.deep_view() == split_crlf(s@),
{
    let mut done: Vec<Vec<char>> = Vec::new();
    let mut cur: Vec<char> = Vec::new();
    let mut i: usize = 0;
    proof {
        assert(s@.take(0) =~= Seq::<char>::empty());
        assert(split_crlf(s@.take(0)) =~~= done.deep_view().push(cur@));
    }
    while i < s.len()
        invariant
            i <= s@.len(),
            split_crlf(s@.take(i as int)) =~~= done.deep_view().push(cur@),
        decreases s@.len() - i,
    {
        let c = s[i];
        proof {
            assert(s@.take(i + 1).drop_last() =~= s@.take(i as int));
            assert(s@.take(i + 1).last() == s@[i as int]);
            lemma_split_crlf_len(s@.take(i as int));
            lemma_split_crlf_last(s@.take(i as int));
        }
        let ghost prev = split_crlf(s@.take(i as int));
        let sep_end = c == '\n' && cur.len() > 0 && cur[cur.len() - 1] == '\r';
        proof {
            // `cur` is the last piece of the prefix, so its last character
            // tells whether the extended prefix ends with CRLF.
            assert(prev.last() == cur.deep_view());
            assert(cur.deep_view() =~= cur@);
            assert(sep_end == crlf_ended(s@.take(i + 1)));
        }
        if sep_end {
            proof {
                // The prefix itself cannot end with CRLF: its last
                // character is the carriage return just found.
                assert(!crlf_ended(s@.take(i as int)));
                assert(i >= 1);
                assert(s@.take(i + 1).take(i - 1) =~= s@.take(i as int).drop_last());
            }
            let ghost stem = split_crlf(s@.take(i as int).drop_last());
            let ghost old_done = done.deep_view();
            proof {
                lemma_split_crlf_len(s@.take(i as int).drop_last());
                assert(prev =~= stem.update(stem.len() - 1, stem.last().push('\r')));
                assert(old_done =~~= prev.take(prev.len() - 1));
                assert(prev.take(prev.len() - 1) =~= stem.take(stem.len() - 1));
                assert(cur@ =~= stem.last().push('\r'));
                assert(cur@.drop_last() =~= stem.last());
            }
            cur.pop();
            done.push(cur);
            cur = Vec::new();
            proof {
                assert(split_crlf(s@.take(i + 1)) =~= stem.push(Seq::<char>::empty()));
                assert(done.deep_view() =~~= old_done.push(stem.last()));
                assert(old_done.push(stem.last()) =~~= stem);
                assert(split_crlf(s@.take(i + 1)) =~~= done.deep_view().push(cur@));
            }
        } else {
            let ghost old_cur = cur@;
            let ghost old_done = done.deep_view();
            cur.push(c);
            proof {
                assert(split_crlf(s@.take(i + 1)) =~= prev.update(
                    prev.len() - 1,
                    old_cur.push(s@[i as int]),
                ));
                assert(prev.update(prev.len() - 1, old_cur.push(s@[i as int])) =~~= old_done.push(
                    cur@,
                ));
            }
        }
        i += 1;
    }
    proof {
        assert(s@.take(s@.len() as int) =~= s@);
    }
    done.push(cur);
    proof {
        assert(done.deep_view() =~~= split_crlf(s@));
    }
    done
}

} // verus!
