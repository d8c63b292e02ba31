use vstd::prelude::*;

verus! {

/// A field element, held as its big-endian bytes. Leading zero bytes carry no
/// value: `[0, 0, 7]` and `[7]` stand for the same element.
#[derive(Clone, Debug)]
pub struct Felt {
    pub be: Vec<u8>,
}

impl View for Felt {
    type V = Seq<u8>;

    open spec fn view(&self) -> Seq<u8> {
        self.be@
    }
}

/// The bytes without their leading zeros.
pub open spec fn significant(s: Seq<u8>) -> Seq<u8>
    decreases s.len(),
{
    if s.len() > 0 && s[0] == 0 {
        significant(s.drop_first())
    } else {
        s
    }
}

/// The characters of the non-zero bytes, in order.
pub open spec fn nonzero_chars(s: Seq<u8>) -> Seq<char>
    decreases s.len(),
{
    if s.len() == 0 {
        seq![]
    } else if s.last() == 0 {
        nonzero_chars(s.drop_last())
    } else {
        nonzero_chars(s.drop_last()).push(s.last() as char)
    }
}

/// Bytes that read as a Cairo short string: every byte is ASCII and no
/// non-zero byte follows a zero byte.
pub open spec fn is_short_string(s: Seq<u8>) -> bool {
    &&& forall|i: int| 0 <= i < s.len() ==> s[i] < 128
    &&& forall|i: int, j: int| 0 <= i < j < s.len() && s[i] == 0 ==> s[j] == 0
}

/// The short string that a felt's bytes encode, if they encode one.
pub open spec fn short_string_of(be: Seq<u8>) -> Option<Seq<char>> {
    let m = significant(be);
    if is_short_string(m) {
        Some(nonzero_chars(m))
    } else {
        None
    }
}

/// The hexadecimal digit of a nibble, in lower case.
pub open spec fn hex_digit(n: u8) -> char {
    if n < 10 {
        (n + 48) as u8 as char
    } else {
        (n + 87) as u8 as char
    }
}

/// Each byte as its two nibbles, high one first.
pub open spec fn nibbles(s: Seq<u8>) -> Seq<u8>
    decreases s.len(),
{
    if s.len() == 0 {
        seq![]
    } else {
        nibbles(s.drop_last()).push(s.last() / 16).push(s.last() % 16)
    }
}

/// `0x` followed by the value's hexadecimal digits without leading zeros
/// (`0x0` for zero).
pub open spec fn hex_of(be: Seq<u8>) -> Seq<char> {
    let d = significant(nibbles(be));
    if d.len() == 0 {
        seq!['0', 'x', '0']
    } else {
        seq!['0', 'x'] + d.map_values(|n: u8| hex_digit(n))
    }
}

proof fn lemma_significant_push(x: Seq<u8>, n: u8)
    ensures
        significant(x.push(n)) == (if significant(x).len() == 0 && n == 0 {
            seq![]
        } else {
            significant(x).push(n)
        }),
    decreases x.len(),
{
    if x.len() > 0 && x[0] == 0 {
        assert(x.push(n).drop_first() == x.drop_first().push(n));
        lemma_significant_push(x.drop_first(), n);
    } else if x.len() == 0 {
        assert(x.push(n).drop_first() == x);
    }
}

fn hex_digit_of(n: u8) -> (c: char)
    requires
        n < 16,
    ensures
        c == hex_digit(n),
{
    if n < 10 {
        (n + 48) as char
    } else {
        (n + 87) as char
    }
}

impl Felt {
    pub fn from_be_bytes(be: Vec<u8>) -> (r: Felt)
        ensures
            r@ == be@,
    {
        Felt { be }
    }

    /// Index of the first non-zero byte (the length when all are zero).
    fn first_significant(&self) -> (k: usize)
        ensures
            k <= self@.len(),
            significant(self@) == self@.skip(k as int),
    {
        let mut k: usize = 0;
        assert(self@.skip(0) == self@);
        while k < self.be.len() && self.be[k] == 0
            invariant
                k <= self@.len(),
                significant(self@) == significant(self@.skip(k as int)),
            decreases self@.len() - k,
        {
            assert(self@.skip(k as int).drop_first() == self@.skip(k + 1));
            k = k + 1;
        }
        k
    }

    /// The value in hexadecimal, as `0x` and lower-case digits without leading
    /// zeros.
    pub fn to_hex(&self) -> (r: String)
        ensures
            r@ == hex_of(self@),
    {
        let mut digits = String::new();
        let mut started = false;
        let mut i: usize = 0;
        while i < self.be.len()
            invariant
                i <= self@.len(),
                digits@ == significant(nibbles(self@.take(i as int))).map_values(|n: u8| hex_digit(n)),
                started == (digits@.len() > 0),
            decreases self@.len() - i,
        {
            let b = self.be[i];
            let ghost t = self@.take(i as int);
            let ghost t1 = self@.take(i + 1);
            assert(t1.drop_last() == t);
            let ghost x = nibbles(t);
            proof {
                lemma_significant_push(x, b / 16);
                lemma_significant_push(x.push(b / 16), b % 16);
            }
            if started || b / 16 != 0 {
                crate::text::push_char(&mut digits, hex_digit_of(b / 16));
                started = true;
            }
            if started || b % 16 != 0 {
                crate::text::push_char(&mut digits, hex_digit_of(b % 16));
                started = true;
            }
            i = i + 1;
            assert(digits@ == significant(nibbles(t1)).map_values(|n: u8| hex_digit(n)));
        }
        assert(self@.take(i as int) == self@);
        let mut r = String::new();
        crate::text::push_char(&mut r, '0');
        crate::text::push_char(&mut r, 'x');
        if !started {
            crate::text::push_char(&mut r, '0');
        } else {
            r.append(digits.as_str());
        }
        r
    }

    /// Decodes the felt as a Cairo short string: its significant bytes must be
    /// ASCII, with zero bytes only at the end, which are dropped.
    pub fn as_short_string(&self) -> (r: Option<String>)
        ensures
            r.is_some() == short_string_of(self@).is_some(),
            r.is_some() ==> r.unwrap()@ == short_string_of(self@).unwrap(),
    {
        let k = self.first_significant();
        let ghost m = self@.skip(k as int);
        let mut out = String::new();
        let mut ended = false;
        let mut i: usize = k;
        while i < self.be.len()
            invariant
                k <= i <= self@.len(),
                m == self@.skip(k as int),
                significant(self@) == m,
                is_short_string(m.take(i - k)),
                out@ == nonzero_chars(m.take(i - k)),
                ended == exists|j: int| 0 <= j < i - k && m[j] == 0,
            decreases self@.len() - i,
        {
            let b = self.be[i];
            let ghost t = m.take(i - k);
            let ghost t1 = m.take(i + 1 - k);
            assert(t1.drop_last() == t);
            assert(t1.last() == b);
            if b == 0 {
                ended = true;
            } else if ended || b >= 128 {
                assert(!is_short_string(m)) by {
                    if b >= 128 {
                        assert(m[i - k] == b);
                    } else {
                        let j = choose|j: int| 0 <= j < i - k && m[j] == 0;
                        assert(m[j] == 0 && m[i - k] != 0);
                    }
                }
                assert(short_string_of(self@).is_none());
                return None;
            } else {
                crate::text::push_char(&mut out, b as char);
            }
            i = i + 1;
            assert(is_short_string(t1)) by {
                assert forall|x: int, y: int| 0 <= x < y < t1.len() && t1[x] == 0 implies t1[y] == 0 by {
                    if y < t1.len() - 1 {
                        assert(t[x] == 0);
                    }
                }
            }
        }
        assert(m.take(i - k) == m);
        Some(out)
    }
}

} // verus!
