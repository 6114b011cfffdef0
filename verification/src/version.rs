//! Wire protocol version used for cluster compatibility checks.
//!
//! A wire version is written `MAJOR.MINOR.PATCH`, three non-empty runs of
//! ASCII decimal digits separated by dots, each fitting in a `u32`. Two nodes
//! can talk to each other when their MAJOR versions agree.

use vstd::prelude::*;
use vstd::string::*;
use crate::text::{decimal_text, digit_text, u64_to_decimal};

verus! {

/// The wire protocol version spoken by this library.
pub const DACTOR_WIRE_VERSION: &'static str = "0.2.0";

/// A parsed wire protocol version.
#[derive(Debug, Clone, Copy, PartialEq, Eq, Hash, PartialOrd, Ord, Structural)]
pub struct WireVersion {
    /// Incompatible protocol changes.
    pub major: u32,
    /// Backward-compatible additions.
    pub minor: u32,
    /// Fixes that do not change the protocol.
    pub patch: u32,
}

/// Error returned when a version string is not of the form `MAJOR.MINOR.PATCH`.
#[derive(Debug, PartialEq, Eq)]
pub struct ParseWireVersionError {
    /// The text that failed to parse.
    pub input: String,
}

/// Whether `c` is an ASCII decimal digit.
pub open spec fn is_digit(c: char) -> bool {
    '0' <= c && c <= '9'
}

/// Progress of reading a version string from left to right.
pub struct VersionScan {
    /// Values of the components finished so far (before each dot).
    pub done: Seq<nat>,
    /// Value of the component being read.
    pub cur: nat,
    /// Whether the component being read has at least one digit.
    pub has_digit: bool,
    /// Whether the text has already been found malformed.
    pub bad: bool,
}

/// The state before any character is read.
pub open spec fn scan_start() -> VersionScan {
    VersionScan { done: Seq::empty(), cur: 0, has_digit: false, bad: false }
}

/// Reading one more character.
pub open spec fn scan_step(st: VersionScan, c: char) -> VersionScan {
    if st.bad {
        st
    } else if is_digit(c) {
        let v = st.cur * 10 + (c as nat - '0' as nat);
        if v > u32::MAX {
            VersionScan { bad: true, ..st }
        } else {
            VersionScan { cur: v as nat, has_digit: true, ..st }
        }
    } else if c == '.' && st.has_digit && st.done.len() < 2 {
        VersionScan { done: st.done.push(st.cur), cur: 0, has_digit: false, bad: false }
    } else {
        VersionScan { bad: true, ..st }
    }
}

/// The state after reading all of `s`, starting from `st`.
pub open spec fn scan_from(st: VersionScan, s: Seq<char>) -> VersionScan
    decreases s.len(),
{
    if s.len() == 0 {
        st
    } else {
        scan_step(scan_from(st, s.drop_last()), s.last())
    }
}

/// The version a text denotes, if it is well formed.
pub open spec fn parse_version_spec(s: Seq<char>) -> Option<WireVersion> {
    let st = scan_from(scan_start(), s);
    if !st.bad && st.done.len() == 2 && st.has_digit {
        Some(WireVersion { major: st.done[0] as u32, minor: st.done[1] as u32, patch: st.cur as u32 })
    } else {
        None
    }
}

/// Text form `MAJOR.MINOR.PATCH` of a version.
pub open spec fn version_text(v: WireVersion) -> Seq<char> {
    decimal_text(v.major as nat) + "."@ + decimal_text(v.minor as nat) + "."@ + decimal_text(v.patch as nat)
}

/// Reading `a + b` is reading `a`, then `b`.
pub proof fn lemma_scan_concat(st: VersionScan, a: Seq<char>, b: Seq<char>)
    ensures
        scan_from(st, a + b) == scan_from(scan_from(st, a), b),
    decreases b.len(),
{
    if b.len() == 0 {
        assert(a + b =~= a);
    } else {
        lemma_scan_concat(st, a, b.drop_last());
        assert((a + b).drop_last() =~= a + b.drop_last());
        assert((a + b).last() == b.last());
    }
}

/// The one character of a decimal digit's text.
pub proof fn lemma_digit_text(d: nat)
    requires
        d < 10,
    ensures
        digit_text(d).len() == 1,
        digit_text(d)[0] as nat == '0' as nat + d,
        is_digit(digit_text(d)[0]),
{
    reveal_strlit("0");
    reveal_strlit("1");
    reveal_strlit("2");
    reveal_strlit("3");
    reveal_strlit("4");
    reveal_strlit("5");
    reveal_strlit("6");
    reveal_strlit("7");
    reveal_strlit("8");
    reveal_strlit("9");
}

/// Decimal text is never empty.
pub proof fn lemma_decimal_nonempty(n: nat)
    ensures
        decimal_text(n).len() > 0,
    decreases n,
{
    if n < 10 {
        lemma_digit_text(n);
    } else {
        lemma_decimal_nonempty(n / 10);
    }
}

/// Reading the decimal text of `n` from a fresh component yields `n`.
pub proof fn lemma_scan_decimal(st: VersionScan, n: nat)
    requires
        !st.bad,
        st.cur == 0,
        !st.has_digit,
        n <= u32::MAX,
    ensures
        scan_from(st, decimal_text(n)) == (VersionScan { cur: n, has_digit: true, ..st }),
    decreases n,
{
    let t = decimal_text(n);
    if n < 10 {
        lemma_digit_text(n);
        assert(t.drop_last() =~= Seq::<char>::empty());
        assert(scan_from(st, t.drop_last()) == st);
        let c = t.last();
        assert(c as nat - '0' as nat == n);
        assert(scan_step(st, c) == (VersionScan { cur: n, has_digit: true, ..st }));
    } else {
        lemma_scan_decimal(st, n / 10);
        lemma_digit_text(n % 10);
        let p = decimal_text(n / 10);
        assert(t =~= p + digit_text(n % 10));
        assert(t.drop_last() =~= p);
        let c = t.last();
        assert(c == digit_text(n % 10)[0]);
        assert(c as nat - '0' as nat == n % 10);
        let prev = scan_from(st, p);
        assert(prev.cur * 10 + (c as nat - '0' as nat) == n);
        assert(scan_step(prev, c) == (VersionScan { cur: n, has_digit: true, ..st }));
    }
}

/// Reading a dot after a non-empty component.
pub proof fn lemma_scan_dot(st: VersionScan)
    requires
        !st.bad,
        st.has_digit,
        st.done.len() < 2,
    ensures
        scan_from(st, "."@) == (VersionScan { done: st.done.push(st.cur), cur: 0, has_digit: false, bad: false }),
{
    reveal_strlit(".");
    let d = "."@;
    assert(d.len() == 1);
    assert(d.drop_last() =~= Seq::<char>::empty());
    assert(scan_from(st, d.drop_last()) == st);
    assert(d.last() == '.');
}

/// Reading the text of a version gives that version back.
pub proof fn lemma_parse_version_text(v: WireVersion)
    ensures
        parse_version_spec(version_text(v)) == Some(v),
{
    let a = decimal_text(v.major as nat);
    let b = decimal_text(v.minor as nat);
    let c = decimal_text(v.patch as nat);
    let dot = "."@;
    lemma_decimal_nonempty(v.major as nat);
    lemma_decimal_nonempty(v.minor as nat);
    lemma_decimal_nonempty(v.patch as nat);
    let s0 = scan_start();
    lemma_scan_decimal(s0, v.major as nat);
    let s1 = scan_from(s0, a);
    lemma_scan_dot(s1);
    let s2 = scan_from(s1, dot);
    lemma_scan_decimal(s2, v.minor as nat);
    let s3 = scan_from(s2, b);
    lemma_scan_dot(s3);
    let s4 = scan_from(s3, dot);
    lemma_scan_decimal(s4, v.patch as nat);
    lemma_scan_concat(s0, a, dot);
    lemma_scan_concat(s0, a + dot, b);
    lemma_scan_concat(s0, a + dot + b, dot);
    lemma_scan_concat(s0, a + dot + b + dot, c);
}

impl WireVersion {
    /// Parse a `MAJOR.MINOR.PATCH` string.
    pub fn parse(s: &str) -> (r: Result<WireVersion, ParseWireVersionError>)
        ensures
            r matches Ok(v) ==> parse_version_spec(s@) == Some(v),
            r matches Err(e) ==> parse_version_spec(s@) is None && e.input@ == s@,
    {
        let ghost text = s@;
        let mut done0: u32 = 0;
        let mut done1: u32 = 0;
        let mut ndone: usize = 0;
        let mut cur: u64 = 0;
        let mut has_digit = false;
        let mut bad = false;
        for c in it: s.chars()
            invariant
                text == s@,
                it.seq() == text,
                ({
                    let st = scan_from(scan_start(), text.take(it.index() as int));
                    &&& st.bad == bad
                    &&& !bad ==> {
                        &&& st.done.len() == ndone
                        &&& ndone <= 2
                        &&& (ndone >= 1 ==> st.done[0] == done0)
                        &&& (ndone >= 2 ==> st.done[1] == done1)
                        &&& st.cur == cur
                        &&& cur <= u32::MAX
                        &&& st.has_digit == has_digit
                    }
                }),
        {
            let ghost i = it.index();
            proof {
                assert(text.take(i + 1).drop_last() =~= text.take(i as int));
                assert(text.take(i + 1).last() == c);
            }
            if !bad {
                if '0' <= c && c <= '9' {
                    let d = (c as u32 - '0' as u32) as u64;
                    let v = cur * 10 + d;
                    if v > 4294967295u64 {
                        bad = true;
                    } else {
                        cur = v;
                        has_digit = true;
                    }
                } else if c == '.' && has_digit && ndone < 2 {
                    if ndone == 0 {
                        done0 = cur as u32;
                    } else {
                        done1 = cur as u32;
                    }
                    ndone = ndone + 1;
                    cur = 0;
                    has_digit = false;
                } else {
                    bad = true;
                }
            }
        }
        proof {
            assert(text.take(text.len() as int) =~= text);
        }
        if !bad && ndone == 2 && has_digit {
            Ok(WireVersion { major: done0, minor: done1, patch: cur as u32 })
        } else {
            Err(ParseWireVersionError { input: String::from_str(s) })
        }
    }

    /// The version spoken by this library.
    pub open spec fn current_spec() -> WireVersion {
        WireVersion { major: 0, minor: 2, patch: 0 }
    }

    /// The version spoken by this library, `0.2.0`.
    pub fn current() -> (v: WireVersion)
        ensures
            parse_version_spec(DACTOR_WIRE_VERSION@) == Some(v),
            v == WireVersion::current_spec(),
    {
        let v = WireVersion { major: 0, minor: 2, patch: 0 };
        proof {
            lemma_parse_version_text(v);
            reveal_strlit("0.2.0");
            reveal_strlit(".");
            reveal_strlit("0");
            reveal_strlit("2");
            assert(version_text(v) =~= DACTOR_WIRE_VERSION@);
        }
        v
    }

    /// Whether two nodes with these versions can talk: same MAJOR version.
    pub fn is_compatible(&self, other: &WireVersion) -> (r: bool)
        ensures
            r == (self.major == other.major),
    {
        self.major == other.major
    }

    /// Text form `MAJOR.MINOR.PATCH`.
    pub fn to_string(&self) -> (s: String)
        ensures
            s@ == version_text(*self),
    {
        let mut s = u64_to_decimal(self.major as u64);
        s.append(".");
        let b = u64_to_decimal(self.minor as u64);
        s.append(b.as_str());
        s.append(".");
        let c = u64_to_decimal(self.patch as u64);
        s.append(c.as_str());
        s
    }
}

impl ParseWireVersionError {
    /// Text form: `invalid wire version: <input>`.
    pub fn to_string(&self) -> (s: String)
        ensures
            s@ == "invalid wire version: "@ + self.input@,
    {
        let mut s = String::from_str("invalid wire version: ");
        s.append(self.input.as_str());
        s
    }
}

} // verus!
