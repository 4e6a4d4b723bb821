use vstd::prelude::*;

verus! {

use crate::error::Error;

/// An incremental splitter of a byte stream into lines.  Bytes without a
/// line ending accumulate in `buf`; `saw_return` remembers a carriage
/// return that ended the previous input, so a newline that follows it in
/// the next input is treated as part of the same line ending.
pub struct LineParser {
    pub buf: Vec<u8>,
    pub saw_return: bool,
}

/// The position of the first "\r\n" pair at or after `i`.
pub open spec fn find_crlf(data: Seq<u8>, i: int) -> Option<int>
    decreases data.len() - i,
{
    if i < 0 || i + 1 >= data.len() {
        None
    } else if data[i] == 13 && data[i + 1] == 10 {
        Some(i)
    } else {
        find_crlf(data, i + 1)
    }
}

/// The position of the first carriage return or newline at or after `i`.
pub open spec fn find_eol(data: Seq<u8>, i: int) -> Option<int>
    decreases data.len() - i,
{
    if i < 0 || i >= data.len() {
        None
    } else if data[i] == 13 || data[i] == 10 {
        Some(i)
    } else {
        find_eol(data, i + 1)
    }
}

/// One call of `parse_line_http` on a parser holding `buf` and
/// `saw_return`, fed `data`: the line and consumed count if a line is
/// complete, then the new buffer and the new flag.  A line ends only at
/// "\r\n"; a newline at the start of the input completes a line whose
/// carriage return arrived earlier, when more input follows the newline.
pub open spec fn http_step(buf: Seq<u8>, saw: bool, data: Seq<u8>) -> (Option<(Seq<u8>, int)>, Seq<
    u8,
>, bool) {
    if saw && buf.len() > 0 && data.len() > 1 && data[0] == 10 {
        (Some((buf.take(buf.len() - 1), 1)), Seq::empty(), saw)
    } else {
        match find_crlf(data, 0) {
            Some(f) => (
                Some((buf + data.take(f), f + 2)),
                Seq::empty(),
                if f == 0 {
                    saw
                } else {
                    data[f - 1] == 13
                },
            ),
            None => (
                None,
                buf + data,
                if data.len() == 0 {
                    saw
                } else {
                    data[data.len() - 1] == 13
                },
            ),
        }
    }
}

/// One call of `parse_line` on a parser holding `buf` and `saw_return`,
/// fed `data`.  A line ends at a newline, at a "\r\n" pair, or at a
/// carriage return alone; a carriage return that ends the input sets the
/// flag so that a newline opening the next input is swallowed.
pub open spec fn plain_step(buf: Seq<u8>, saw: bool, data: Seq<u8>) -> (Option<(Seq<u8>, int)>, Seq<
    u8,
>, bool) {
    let start: int = if saw && data.len() > 0 && data[0] == 10 {
        1
    } else {
        0
    };
    let d = data.skip(start);
    match find_eol(d, 0) {
        Some(f) => {
            let line = buf + d.take(f);
            if d[f] == 10 {
                (Some((line, start + f + 1)), Seq::empty(), false)
            } else if f + 1 < d.len() {
                if d[f + 1] == 10 {
                    (Some((line, start + f + 2)), Seq::empty(), false)
                } else {
                    (Some((line, start + f + 1)), Seq::empty(), false)
                }
            } else {
                (Some((line, start + f + 1)), Seq::empty(), true)
            }
        },
        None => (
            None,
            buf + d,
            if data.len() == 0 {
                saw
            } else {
                false
            },
        ),
    }
}

/// The position of the first "\r\n" pair.
#[verifier::loop_isolation(false)]
fn find_crlf_exec(data: &[u8]) -> (r: Option<usize>)
    ensures
        match r {
            Some(f) => find_crlf(data@, 0) == Some(f as int) && f + 1 < data@.len()
                && data@[f as int] == 13 && data@[f as int + 1] == 10,
            None => find_crlf(data@, 0) is None,
        },
{
    if data.len() == 0 {
        return None;
    }
    let mut i: usize = 0;
    while i + 1 < data.len()
        invariant
            i < data@.len(),
            find_crlf(data@, 0) == find_crlf(data@, i as int),
        decreases data@.len() - i,
    {
        if data[i] == 13 && data[i + 1] == 10 {
            return Some(i);
        }
        i = i + 1;
    }
    None
}

/// The position of the first carriage return or newline.
#[verifier::loop_isolation(false)]
fn find_eol_exec(data: &[u8]) -> (r: Option<usize>)
    ensures
        match r {
            Some(f) => find_eol(data@, 0) == Some(f as int) && f < data@.len() && (data@[f as int]
                == 13 || data@[f as int] == 10),
            None => find_eol(data@, 0) is None,
        },
{
    let mut i: usize = 0;
    while i < data.len()
        invariant
            i <= data@.len(),
            find_eol(data@, 0) == find_eol(data@, i as int),
        decreases data@.len() - i,
    {
        if data[i] == 13 || data[i] == 10 {
            return Some(i);
        }
        i = i + 1;
    }
    None
}

/// Appends `src[from..upto]` onto `dst`.
fn extend_range(dst: &mut Vec<u8>, src: &[u8], from: usize, upto: usize)
    requires
        from <= upto <= src@.len(),
    ensures
        final(dst)@ == old(dst)@ + src@.subrange(from as int, upto as int),
{
    let mut i: usize = from;
    while i < upto
        invariant
            from <= i <= upto <= src@.len(),
            dst@ =~= old(dst)@ + src@.subrange(from as int, i as int),
        decreases upto - i,
    {
        dst.push(src[i]);
        i = i + 1;
    }
    proof {
        assert(dst@ =~= old(dst)@ + src@.subrange(from as int, upto as int));
    }
}

impl LineParser {
    /// A parser holding nothing.
    pub fn new() -> (p: Self)
        ensures
            p.buf@ == Seq::<u8>::empty(),
            p.saw_return == false,
    {
        LineParser { buf: Vec::new(), saw_return: false }
    }

    /// Splits off the next line ended by "\r\n".  Returns the line without
    /// its ending and the number of input bytes consumed, or `None` when
    /// the input holds no complete line yet (the bytes are kept for the
    /// next call).
    pub fn parse_line_http(&mut self, data: &[u8]) -> (r: Option<(Vec<u8>, usize)>)
        ensures
            ({
                let (rr, nbuf, nsaw) = http_step(old(self).buf@, old(self).saw_return, data@);
                &&& final(self).buf@ == nbuf
                &&& final(self).saw_return == nsaw
                &&& match (r, rr) {
                    (Some((line, p)), Some(lp)) => line@ == lp.0 && p as int == lp.1,
                    (None, None) => true,
                    _ => false,
                }
            }),
    {
        if self.saw_return && self.buf.len() > 0 && data.len() > 1 && data[0] == 10 {
            let mut line: Vec<u8> = Vec::new();
            core::mem::swap(&mut line, &mut self.buf);
            let _popped = line.pop();
            proof {
                assert(line@ =~= old(self).buf@.take(old(self).buf@.len() - 1));
                assert(self.buf@ =~= Seq::<u8>::empty());
            }
            return Some((line, 1));
        }
        match find_crlf_exec(data) {
            Some(f) => {
                let mut line: Vec<u8> = Vec::new();
                core::mem::swap(&mut line, &mut self.buf);
                extend_range(&mut line, data, 0, f);
                if f == 0 {
                } else {
                    self.saw_return = data[f - 1] == 13;
                }
                proof {
                    assert(line@ =~= old(self).buf@ + data@.take(f as int));
                    assert(self.buf@ =~= Seq::<u8>::empty());
                }
                Some((line, f + 2))
            },
            None => {
                extend_range(&mut self.buf, data, 0, data.len());
                if data.len() > 0 {
                    self.saw_return = data[data.len() - 1] == 13;
                }
                proof {
                    assert(data@.subrange(0, data@.len() as int) =~= data@);
                }
                None
            },
        }
    }

    /// Splits off the next line ended by a newline, a "\r\n" pair, or a
    /// lone carriage return.  Returns the line without its ending and the
    /// number of input bytes consumed, or the bytes are kept and the call
    /// fails until an ending arrives.
    pub fn parse_line(&mut self, data: &[u8]) -> (r: Result<(Vec<u8>, usize), Error>)
        ensures
            ({
                let (rr, nbuf, nsaw) = plain_step(old(self).buf@, old(self).saw_return, data@);
                &&& final(self).buf@ == nbuf
                &&& final(self).saw_return == nsaw
                &&& match (r, rr) {
                    (Ok((line, p)), Some(lp)) => line@ == lp.0 && p as int == lp.1,
                    (Err(e), None) => e == Error::Incomplete,
                    _ => false,
                }
            }),
    {
        let start: usize = if self.saw_return && data.len() > 0 && data[0] == 10 {
            1
        } else {
            0
        };
        let ghost d = data@.skip(start as int);
        let rest = &data[start..data.len()];
        proof {
            assert(rest@ =~= d);
        }
        match find_eol_exec(rest) {
            Some(f) => {
                let mut line: Vec<u8> = Vec::new();
                core::mem::swap(&mut line, &mut self.buf);
                extend_range(&mut line, rest, 0, f);
                proof {
                    assert(line@ =~= old(self).buf@ + d.take(f as int));
                    assert(self.buf@ =~= Seq::<u8>::empty());
                }
                if rest[f] == 10 {
                    self.saw_return = false;
                    Ok((line, start + f + 1))
                } else if f + 1 < rest.len() {
                    self.saw_return = false;
                    if rest[f + 1] == 10 {
                        Ok((line, start + f + 2))
                    } else {
                        Ok((line, start + f + 1))
                    }
                } else {
                    self.saw_return = true;
                    Ok((line, start + f + 1))
                }
            },
            None => {
                extend_range(&mut self.buf, rest, 0, rest.len());
                if data.len() > 0 {
                    self.saw_return = false;
                }
                proof {
                    assert(rest@.subrange(0, rest@.len() as int) =~= d);
                }
                Err(Error::Incomplete)
            },
        }
    }
}

/// Gives back the bytes still held: the part of the stream after the last
/// complete line.
impl From<LineParser> for Vec<u8> {
    fn from(lp: LineParser) -> (r: Vec<u8>) {
        lp.buf
    }
}

impl vstd::std_specs::convert::FromSpecImpl<LineParser> for Vec<u8> {
    open spec fn obeys_from_spec() -> bool {
        true
    }

    open spec fn from_spec(lp: LineParser) -> Vec<u8> {
        lp.buf
    }
}

} // verus!
