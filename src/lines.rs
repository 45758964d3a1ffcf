use vstd::prelude::*;
use vstd::std_specs::iter::IteratorSpec;

verus! {

/// The pieces of `s` between its newline characters, in order: always one
/// more piece than `s` has newlines, the last one being what follows the last
/// newline (empty when `s` ends with one).
pub open spec fn pieces(s: Seq<char>) -> Seq<Seq<char>>
    decreases s.len(),
{
    if s.len() == 0 {
        seq![Seq::<char>::empty()]
    } else {
        let p = pieces(s.drop_last());
        if s.last() == '\n' {
            p.push(Seq::<char>::empty())
        } else {
            p.update(p.len() - 1, p.last().push(s.last()))
        }
    }
}

/// A line that was ended by `"\r\n"` loses its carriage return.
pub open spec fn strip_cr(l: Seq<char>) -> Seq<char> {
    if l.len() > 0 && l.last() == '\r' {
        l.drop_last()
    } else {
        l
    }
}

/// The lines of a text body: every piece that a newline ends, without its
/// line ending (`"\n"` or `"\r\n"`), then the unterminated rest if it is not
/// empty. Empty lines in the middle are kept; a final line ending is optional.
pub open spec fn lines_of(s: Seq<char>) -> Seq<Seq<char>> {
    let p = pieces(s);
    let ended = p.drop_last().map_values(|l: Seq<char>| strip_cr(l));
    if p.last().len() == 0 {
        ended
    } else {
        ended.push(p.last())
    }
}

/// The views of a list of strings.
pub open spec fn views(v: Seq<String>) -> Seq<Seq<char>> {
    v.map_values(|s: String| s@)
}

/// Relies on `String::push`: the character is appended at the end.
#[verifier::external_body]
fn push_char(s: &mut String, c: char)
    ensures
        final(s)@ == old(s)@.push(c),
{
    s.push(c)
}

/// The text of the current line so far, with the carriage return that is
/// held back until the next character shows whether it ends the line.
spec fn held(cur: Seq<char>, cr: bool) -> Seq<char> {
    if cr {
        cur.push('\r')
    } else {
        cur
    }
}

/// Splits a response body into its lines, in order, as `str::lines` does:
/// each line becomes one entry, empty ones included. One pass over the text.
pub fn split_lines(body: &str) -> (r: Vec<String>)
    ensures
        views(r@) == lines_of(body@),
{
    let ghost n: int = body@.len() as int;
    let ghost mut i: int = 0;
    let ghost mut raw: Seq<Seq<char>> = seq![];
    let mut out: Vec<String> = Vec::new();
    let mut cur = String::new();
    let mut cr = false;
    let mut chars = body.chars();
    proof {
        assert(body@.subrange(0, 0) =~= Seq::<char>::empty());
        assert(raw.push(held(cur@, cr)) =~= pieces(Seq::<char>::empty()));
        assert(body@.subrange(0, n) =~= body@);
    }
    loop
        invariant
            n == body@.len(),
            0 <= i <= n,
            chars.remaining() == body@.subrange(i, n),
            !cr && cur@.len() > 0 ==> cur@.last() != '\r',
            pieces(body@.subrange(0, i)) == raw.push(held(cur@, cr)),
            views(out@) == raw.map_values(|l: Seq<char>| strip_cr(l)),
        ensures
            i == n,
        decreases n - i,
    {
        let next = chars.next();
        match next {
            None => {
                proof {
                    assert(body@.subrange(0, i) =~= body@);
                }
                break ;
            },
            Some(c) => {
                proof {
                    assert(c == body@[i]);
                    assert(chars.remaining() =~= body@.subrange(i + 1, n));
                    let t = body@.subrange(0, i + 1);
                    assert(t.drop_last() =~= body@.subrange(0, i));
                    assert(t.last() == c);
                }
                if c == '\n' {
                    let ghost piece = held(cur@, cr);
                    let ghost old_out = out@;
                    let ghost line = cur@;
                    proof {
                        assert(strip_cr(piece) == line) by {
                            if cr {
                                assert(piece.drop_last() =~= line);
                            }
                        }
                    }
                    out.push(cur);
                    proof {
                        assert(views(out@) =~= views(old_out).push(line));
                        assert(raw.push(piece).map_values(|l: Seq<char>| strip_cr(l))
                            =~= raw.map_values(|l: Seq<char>| strip_cr(l)).push(strip_cr(piece)));
                        raw = raw.push(piece);
                    }
                    cur = String::new();
                    cr = false;
                } else if c == '\r' {
                    if cr {
                        push_char(&mut cur, '\r');
                    }
                    cr = true;
                } else {
                    if cr {
                        push_char(&mut cur, '\r');
                    }
                    push_char(&mut cur, c);
                    cr = false;
                }
                proof {
                    let p = pieces(body@.subrange(0, i));
                    if c != '\n' {
                        assert(p.update(p.len() - 1, p.last().push(c))
                            =~= raw.push(held(cur@, cr)));
                    } else {
                        assert(p.push(Seq::<char>::empty()) =~= raw.push(held(cur@, cr)));
                    }
                    i = i + 1;
                }
            },
        }
    }
    proof {
        assert(pieces(body@).drop_last() =~= raw);
    }
    if cr {
        push_char(&mut cur, '\r');
    }
    if !cur.as_str().is_empty() {
        let ghost old_out = out@;
        let ghost last = cur@;
        out.push(cur);
        proof {
            assert(views(out@) =~= views(old_out).push(last));
        }
    }
    proof {
        assert(views(out@) =~= lines_of(body@));
    }
    out
}

} // verus!
