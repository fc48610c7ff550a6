use vstd::prelude::*;

verus! {

/// The port used when none, or no valid one, is configured.
pub const DEFAULT_PORT: u16 = 3000;

/// Every character is a decimal digit.
pub open spec fn all_digits(s: Seq<char>) -> bool {
    forall|i: int| 0 <= i < s.len() ==> '0' <= #[trigger] s[i] && s[i] <= '9'
}

/// The number that a string of decimal digits writes.
pub open spec fn decimal(s: Seq<char>) -> nat
    decreases s.len(),
{
    if s.len() == 0 {
        0
    } else {
        decimal(s.drop_last()) * 10 + ((s.last() as int - '0' as int) as nat)
    }
}

/// A port number as `u16`'s `FromStr` reads it: an optional `+`, then at
/// least one decimal digit, with a value that fits in 16 bits.
pub open spec fn port_value(s: Seq<char>) -> Option<u16> {
    let d = if s.len() > 0 && s[0] == '+' {
        s.drop_first()
    } else {
        s
    };
    if d.len() > 0 && all_digits(d) && decimal(d) <= 0xffff {
        Some(decimal(d) as u16)
    } else {
        None
    }
}

proof fn lemma_decimal_grows(s: Seq<char>, i: int)
    requires
        0 <= i <= s.len(),
        all_digits(s),
    ensures
        decimal(s.take(i)) <= decimal(s),
    decreases s.len() - i,
{
    if i < s.len() {
        lemma_decimal_grows(s, i + 1);
        assert(s.take(i + 1).drop_last() =~= s.take(i));
        assert('0' <= s[i] && s[i] <= '9');
    } else {
        assert(s.take(i) =~= s);
    }
}

/// The listening port: the configured value when it is a valid port
/// number, the default otherwise.
pub fn port_from(configured: Option<&str>) -> (r: u16)
    ensures
        r == match configured {
            Some(s) => match port_value(s@) {
                Some(p) => p,
                None => DEFAULT_PORT,
            },
            None => DEFAULT_PORT,
        },
{
    let s = match configured {
        Some(s) => s,
        None => return DEFAULT_PORT,
    };
    let cs = crate::text::chars_of(s);
    let start: usize = if cs.len() > 0 && cs[0] == '+' { 1 } else { 0 };
    let ghost d = if s@.len() > 0 && s@[0] == '+' { s@.drop_first() } else { s@ };
    assert(d =~= s@.skip(start as int));
    if start >= cs.len() {
        return DEFAULT_PORT;
    }
    let mut v: u32 = 0;
    let mut i: usize = start;
    while i < cs.len()
        invariant
            cs@ == s@,
            configured == Some(s),
            d == (if s@.len() > 0 && s@[0] == '+' { s@.drop_first() } else { s@ }),
            start <= i <= cs@.len(),
            d == s@.skip(start as int),
            all_digits(d.take(i - start)),
            v == decimal(d.take(i - start)),
            v <= 0xffff,
        decreases cs@.len() - i,
    {
        let c = cs[i];
        if c < '0' || c > '9' {
            assert(!all_digits(d)) by {
                assert(d[i - start] == c);
            }
            return DEFAULT_PORT;
        }
        let digit = (c as u32) - ('0' as u32);
        proof {
            let t = d.take(i - start + 1);
            assert(t.drop_last() =~= d.take(i - start));
            assert(t.last() == c);
            assert(all_digits(t));
        }
        v = v * 10 + digit;
        if v > 0xffff {
            proof {
                let t = d.take(i - start + 1);
                if all_digits(d) {
                    lemma_decimal_grows(d, i - start + 1);
                    assert(decimal(d) > 0xffff);
                }
            }
            return DEFAULT_PORT;
        }
        i = i + 1;
    }
    assert(d.take(i - start) =~= d);
    v as u16
}

} // verus!
