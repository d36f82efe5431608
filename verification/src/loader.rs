//! Text-to-word loader: turns the bytes of an instruction file (one
//! hexadecimal word per line, blank lines ignored) into the program's word
//! sequence.

use vstd::prelude::*;

verus! {

/// ASCII code of the line feed that separates lines.
pub const LINE_FEED: u8 = 10;

/// Why loading failed: the line at `index` (counting every line from 0,
/// blank ones included) is not a hexadecimal encoding of a 32-bit word.
#[derive(Clone, Copy, PartialEq, Eq, Structural, Debug)]
pub enum LoadError {
    BadLine { index: usize },
}

/// Whether a byte is an ASCII hexadecimal digit, either case.
pub open spec fn is_hex_digit(b: u8) -> bool {
    (48 <= b <= 57) || (65 <= b <= 70) || (97 <= b <= 102)
}

/// The numeric value of an ASCII hexadecimal digit (0 for any other byte).
pub open spec fn hex_digit_val(b: u8) -> int {
    if 48 <= b <= 57 {
        b - 48
    } else if 65 <= b <= 70 {
        b - 55
    } else if 97 <= b <= 102 {
        b - 87
    } else {
        0
    }
}

/// Whether every byte of the line is a hexadecimal digit.
pub open spec fn all_hex(line: Seq<u8>) -> bool {
    forall|i: int| 0 <= i < line.len() ==> is_hex_digit(#[trigger] line[i])
}

/// The numeric value of a big-endian string of hexadecimal digits.
pub open spec fn hex_value(line: Seq<u8>) -> int
    decreases line.len(),
{
    if line.len() == 0 {
        0
    } else {
        hex_value(line.drop_last()) * 16 + hex_digit_val(line.last())
    }
}

/// A line encodes an instruction word exactly when it is non-empty, all
/// hexadecimal digits, and its value fits in 32 bits.
pub open spec fn line_ok(line: Seq<u8>) -> bool {
    &&& line.len() > 0
    &&& all_hex(line)
    &&& hex_value(line) <= u32::MAX as int
}

pub proof fn lemma_hex_value_nonneg(line: Seq<u8>)
    ensures
        hex_value(line) >= 0,
    decreases line.len(),
{
    if line.len() > 0 {
        lemma_hex_value_nonneg(line.drop_last());
    }
}

/// Prefix monotonicity: extending a digit string cannot shrink its value.
pub proof fn lemma_hex_value_prefix(line: Seq<u8>, n: int)
    requires
        0 <= n <= line.len(),
    ensures
        hex_value(line.take(n)) <= hex_value(line),
    decreases line.len() - n,
{
    if n == line.len() {
        assert(line.take(n) =~= line);
    } else {
        assert(line.take(n + 1).drop_last() =~= line.take(n));
        assert(line.take(n + 1).last() == line[n]);
        lemma_hex_value_nonneg(line.take(n));
        lemma_hex_value_prefix(line, n + 1);
    }
}

/// Parses the byte range `[start, end)` of `text` as a big-endian
/// hexadecimal word. Yields the word exactly when the range is a valid
/// instruction line.
pub fn parse_hex_range(text: &[u8], start: usize, end: usize) -> (r: Option<u32>)
    requires
        start <= end <= text@.len(),
    ensures
        ({
            let line = text@.subrange(start as int, end as int);
            match r {
                Some(w) => line_ok(line) && w == hex_value(line),
                None => !line_ok(line),
            }
        }),
{
    let ghost line = text@.subrange(start as int, end as int);
    if start == end {
        return None;
    }
    let mut val: u32 = 0;
    let mut i: usize = start;
    while i < end
        invariant
            start <= i <= end <= text@.len(),
            line == text@.subrange(start as int, end as int),
            all_hex(line.take(i - start)),
            val == hex_value(line.take(i - start)),
        decreases end - i,
    {
        let b: u8 = text[i];
        proof {
            assert(line[i - start] == text@[i as int]);
        }
        let d: u32;
        if 48 <= b && b <= 57 {
            d = (b - 48) as u32;
        } else if 65 <= b && b <= 70 {
            d = (b - 55) as u32;
        } else if 97 <= b && b <= 102 {
            d = (b - 87) as u32;
        } else {
            proof {
                assert(!is_hex_digit(line[i - start]));
                assert(!all_hex(line));
            }
            return None;
        }
        proof {
            assert(d as int == hex_digit_val(line[i - start]));
            assert(line.take(i - start + 1).drop_last() =~= line.take(i - start));
            assert(line.take(i - start + 1).last() == line[i - start]);
        }
        if val > 0x0fff_ffff {
            proof {
                // Any further digits only grow the value, so the whole line
                // is over 32 bits.
                lemma_hex_value_nonneg(line.take(i - start));
                assert(hex_value(line.take(i - start + 1)) > u32::MAX as int);
                lemma_hex_value_prefix(line, i - start + 1);
            }
            return None;
        }
        val = val * 16 + d;
        proof {
            assert forall|j: int| 0 <= j < i - start + 1 implies is_hex_digit(
                #[trigger] line.take(i - start + 1)[j],
            ) by {
                if j < i - start {
                    assert(line.take(i - start + 1)[j] == line.take(i - start)[j]);
                } else {
                    assert(line.take(i - start + 1)[j] == line[i - start]);
                }
            }
        }
        i = i + 1;
    }
    proof {
        assert(line.take(end - start) =~= line);
    }
    Some(val)
}

/// Parses a whole line as a big-endian hexadecimal word.
pub fn parse_hex_word(line: &[u8]) -> (r: Option<u32>)
    ensures
        match r {
            Some(w) => line_ok(line@) && w == hex_value(line@),
            None => !line_ok(line@),
        },
{
    let r = parse_hex_range(line, 0, line.len());
    proof {
        assert(line@.subrange(0, line@.len() as int) =~= line@);
    }
    r
}

/// Length of the first line of the text: the number of bytes before the
/// first line feed, or all of them when there is none.
pub open spec fn first_line_len(s: Seq<u8>) -> nat
    decreases s.len(),
{
    if s.len() == 0 {
        0
    } else if s[0] == LINE_FEED {
        0
    } else {
        1 + first_line_len(s.skip(1))
    }
}

/// The first line is exactly the longest line-feed-free prefix.
pub proof fn lemma_first_line_len_eq(s: Seq<u8>, k: nat)
    requires
        k <= s.len(),
        forall|j: int| 0 <= j < k ==> s[j] != LINE_FEED,
        k == s.len() || s[k as int] == LINE_FEED,
    ensures
        first_line_len(s) == k,
    decreases k,
{
    if k == 0 {
    } else {
        assert(s[0] != LINE_FEED);
        assert forall|j: int| 0 <= j < k - 1 implies s.skip(1)[j] != LINE_FEED by {
            assert(s.skip(1)[j] == s[j + 1]);
        }
        if (k as int) < s.len() {
            assert(s.skip(1)[k - 1] == s[k as int]);
        }
        lemma_first_line_len_eq(s.skip(1), (k - 1) as nat);
    }
}

/// The words loaded from the text: lines are separated by line feeds, blank
/// lines are skipped, and every other line must be a valid hexadecimal
/// word. The error names the position of the first line that is not.
pub open spec fn load_spec(s: Seq<u8>, line_index: nat) -> Result<Seq<u32>, LoadError>
    decreases s.len(),
{
    if s.len() == 0 {
        Ok(Seq::<u32>::empty())
    } else {
        let k = first_line_len(s);
        let line = s.take(k as int);
        let rest = if k < s.len() {
            s.skip(k as int + 1)
        } else {
            Seq::<u8>::empty()
        };
        if k == 0 {
            load_spec(rest, line_index + 1)
        } else if !line_ok(line) {
            Err(LoadError::BadLine { index: line_index as usize })
        } else {
            match load_spec(rest, line_index + 1) {
                Ok(ws) => Ok(seq![hex_value(line) as u32] + ws),
                Err(e) => Err(e),
            }
        }
    }
}

/// The given words, prepended to the words of a load result.
pub open spec fn prepend_words(ws: Seq<u32>, r: Result<Seq<u32>, LoadError>) -> Result<
    Seq<u32>,
    LoadError,
> {
    match r {
        Ok(t) => Ok(ws + t),
        Err(e) => Err(e),
    }
}

/// The executable load result agrees with the specification-level one.
pub open spec fn load_result_matches(
    r: Result<Vec<u32>, LoadError>,
    v: Result<Seq<u32>, LoadError>,
) -> bool {
    match r {
        Ok(words) => v is Ok && words@ == v->Ok_0,
        Err(e) => v is Err && e == v->Err_0,
    }
}

/// Reads instruction words from the bytes of the program text, one
/// hexadecimal word per line; blank lines are skipped and the first
/// unparseable line fails the whole load.
pub fn read_instructions(text: &[u8]) -> (r: Result<Vec<u32>, LoadError>)
    ensures
        load_result_matches(r, load_spec(text@, 0)),
{
    let ghost full = load_spec(text@, 0);
    let mut words: Vec<u32> = Vec::new();
    let mut pos: usize = 0;
    let mut line_index: usize = 0;
    proof {
        assert(text@.skip(0) =~= text@);
    }
    while pos < text.len()
        invariant
            pos <= text@.len(),
            line_index <= pos,
            full == load_spec(text@, 0),
            prepend_words(words@, load_spec(text@.skip(pos as int), line_index as nat)) == full,
        decreases text@.len() - pos,
    {
        let ghost s = text@.skip(pos as int);
        // Find the end of the current line.
        let mut end: usize = pos;
        while end < text.len() && text[end] != LINE_FEED
            invariant
                pos <= end <= text@.len(),
                forall|j: int| pos <= j < end ==> text@[j] != LINE_FEED,
            decreases text@.len() - end,
        {
            end = end + 1;
        }
        proof {
            assert forall|j: int| 0 <= j < end - pos implies s[j] != LINE_FEED by {
                assert(s[j] == text@[pos + j]);
            }
            if (end as int) < text@.len() {
                assert(s[end - pos] == text@[end as int]);
            }
            lemma_first_line_len_eq(s, (end - pos) as nat);
        }
        if end == pos {
            // A blank line: skip it.
            proof {
                assert(s.skip(1) =~= text@.skip(pos as int + 1));
            }
            pos = pos + 1;
            line_index = line_index + 1;
        } else {
            proof {
                assert(s.take(end - pos) =~= text@.subrange(pos as int, end as int));
            }
            match parse_hex_range(text, pos, end) {
                Some(w) => {
                    proof {
                        let line = s.take(end - pos);
                        lemma_hex_value_nonneg(line);
                        assert(w == hex_value(line) as u32);
                        let rest = if first_line_len(s) < s.len() {
                            s.skip(end - pos + 1)
                        } else {
                            Seq::<u8>::empty()
                        };
                        match load_spec(rest, line_index as nat + 1) {
                            Ok(ws) => {
                                assert(words@ + (seq![w] + ws) =~= words@.push(w) + ws);
                            },
                            Err(e) => {},
                        }
                        if (end as int) < text@.len() {
                            assert(s.skip(end - pos + 1) =~= text@.skip(end as int + 1));
                        } else {
                            assert(rest =~= text@.skip(end as int));
                        }
                    }
                    words.push(w);
                    line_index = line_index + 1;
                    if end < text.len() {
                        pos = end + 1;
                    } else {
                        pos = end;
                    }
                },
                None => {
                    return Err(LoadError::BadLine { index: line_index });
                },
            }
        }
    }
    proof {
        assert(text@.skip(pos as int) =~= Seq::<u8>::empty());
        assert(words@ + Seq::<u32>::empty() =~= words@);
    }
    Ok(words)
}

} // verus!
