//! Firmware versions and the rule that decides when one is newer.

use vstd::prelude::*;
use crate::outside::{trim_leading, u128_text};
use crate::text::{
    chars_of, decimal_text, drop_leading, parse_i32, parse_unsigned, same_chars, signed_within,
    split_chars, split_on, tail_from, unsigned_within,
};

verus! {

/// A firmware version as a device or a file name reports it.
#[derive(Debug, Clone)]
pub enum Version {
    /// `v2.1.0`, held without the leading `v`.
    Stable(String),
    /// `D1717000000`: a build number, usually the build's epoch.
    Dev(u128),
    /// Anything else.
    Other,
}

/// What a version denotes.
pub enum VersionView {
    Stable(Seq<char>),
    Dev(nat),
    Other,
}

impl View for Version {
    type V = VersionView;

    open spec fn view(&self) -> VersionView {
        match self {
            Version::Stable(s) => VersionView::Stable(s@),
            Version::Dev(n) => VersionView::Dev(*n as nat),
            Version::Other => VersionView::Other,
        }
    }
}

/// The digits of a dev version: what follows the leading `D`s and an
/// optional `V` (`D1717000000`, `DV1714320292`).
pub open spec fn dev_digits(s: Seq<char>) -> Seq<char> {
    let rest = drop_leading(s, 'D');
    if rest.len() > 0 && rest[0] == 'V' {
        rest.drop_first()
    } else {
        rest
    }
}

/// The version that a version string denotes: a leading `v` makes it stable,
/// a leading `D` a build number (0 when its digits are no `u128`).
pub open spec fn parse_version(s: Seq<char>) -> VersionView {
    if s.len() > 0 && s[0] == 'v' {
        VersionView::Stable(drop_leading(s, 'v'))
    } else if s.len() > 0 && s[0] == 'D' {
        match unsigned_within(dev_digits(s), u128::MAX as int) {
            Some(n) => VersionView::Dev(n as nat),
            None => VersionView::Dev(0),
        }
    } else {
        VersionView::Other
    }
}

/// The number a dotted component stands for; -1 when it is no `i32`.
pub open spec fn component_value(c: Seq<char>) -> int {
    match signed_within(c, i32::MIN as int, i32::MAX as int) {
        Some(v) => v,
        None => -1,
    }
}

/// Compares the components of `a` and `b` from index `i` on: the first
/// component whose values differ decides; if none does, `b` is newer when all
/// shared components were written alike and `b` has more of them.
pub open spec fn stable_newer_from(
    a: Seq<Seq<char>>,
    b: Seq<Seq<char>>,
    i: int,
    same: bool,
) -> bool
    decreases a.len() - i,
{
    if i < 0 || i >= a.len() || i >= b.len() {
        same && b.len() > a.len()
    } else if component_value(b[i]) > component_value(a[i]) {
        true
    } else if component_value(b[i]) < component_value(a[i]) {
        false
    } else {
        stable_newer_from(a, b, i + 1, same && a[i] == b[i])
    }
}

/// Whether the stable version `b` is newer than `a` (both without the `v`).
pub open spec fn stable_newer(a: Seq<char>, b: Seq<char>) -> bool {
    stable_newer_from(split_on(a, '.'), split_on(b, '.'), 0, true)
}

/// Whether `cand` is newer than `cur`. Versions of one kind compare as such;
/// `Other` is never newer; across kinds any known version counts as newer.
pub open spec fn newer(cur: VersionView, cand: VersionView) -> bool {
    match (cur, cand) {
        (_, VersionView::Other) => false,
        (VersionView::Stable(a), VersionView::Stable(b)) => stable_newer(a, b),
        (VersionView::Dev(a), VersionView::Dev(b)) => b > a,
        _ => true,
    }
}

/// What `inner_version` renders.
pub open spec fn version_text(v: VersionView) -> Seq<char> {
    match v {
        VersionView::Stable(s) => s,
        VersionView::Dev(n) => decimal_text(n),
        VersionView::Other => seq!['O', 't', 'h', 'e', 'r'],
    }
}

/// Whether two versions are of one kind.
pub open spec fn same_kind(a: VersionView, b: VersionView) -> bool {
    match (a, b) {
        (VersionView::Stable(_), VersionView::Stable(_)) => true,
        (VersionView::Dev(_), VersionView::Dev(_)) => true,
        (VersionView::Other, VersionView::Other) => true,
        _ => false,
    }
}

proof fn lemma_stable_from_antisymmetric(a: Seq<Seq<char>>, b: Seq<Seq<char>>, i: int, same: bool)
    requires
        0 <= i,
    ensures
        stable_newer_from(a, b, i, same) ==> !stable_newer_from(b, a, i, same),
    decreases a.len() - i,
{
    if i < a.len() && i < b.len() && component_value(b[i]) == component_value(a[i]) {
        lemma_stable_from_antisymmetric(a, b, i + 1, same && a[i] == b[i]);
        assert((same && a[i] == b[i]) == (same && b[i] == a[i]));
    }
}

proof fn lemma_stable_from_irreflexive(a: Seq<Seq<char>>, i: int, same: bool)
    requires
        0 <= i,
    ensures
        !stable_newer_from(a, a, i, same),
    decreases a.len() - i,
{
    if i < a.len() {
        lemma_stable_from_irreflexive(a, i + 1, same);
    }
}

/// No version is newer than itself; and of two versions of one kind, when
/// one is newer than the other, the other is not newer than the first.
pub proof fn lemma_newer_antisymmetric(a: VersionView, b: VersionView)
    requires
        same_kind(a, b),
    ensures
        newer(a, b) ==> !newer(b, a),
        !newer(a, a),
{
    match (a, b) {
        (VersionView::Stable(x), VersionView::Stable(y)) => {
            lemma_stable_from_antisymmetric(split_on(x, '.'), split_on(y, '.'), 0, true);
            lemma_stable_from_irreflexive(split_on(x, '.'), 0, true);
        },
        _ => {},
    }
}

/// Whether, at every position both have, components that stand for the
/// same number are also written alike (no `01` against `1`).
pub open spec fn texts_agree(a: Seq<Seq<char>>, b: Seq<Seq<char>>) -> bool {
    forall|k: int|
        0 <= k < a.len() && k < b.len() && component_value(#[trigger] a[k]) == component_value(
            #[trigger] b[k],
        ) ==> a[k] == b[k]
}

/// Whether two versions, when both are stable, write equal components alike.
pub open spec fn stable_agree(x: VersionView, y: VersionView) -> bool {
    match (x, y) {
        (VersionView::Stable(a), VersionView::Stable(b)) => texts_agree(split_on(a, '.'), split_on(b, '.')),
        _ => true,
    }
}

/// Component-wise comparison by value from index `i`, a longer version
/// winning a tie.
pub open spec fn lex_newer(a: Seq<Seq<char>>, b: Seq<Seq<char>>, i: int) -> bool
    decreases a.len() - i,
{
    if i < 0 || i >= a.len() || i >= b.len() {
        b.len() > a.len()
    } else if component_value(b[i]) > component_value(a[i]) {
        true
    } else if component_value(b[i]) < component_value(a[i]) {
        false
    } else {
        lex_newer(a, b, i + 1)
    }
}

proof fn lemma_lex(a: Seq<Seq<char>>, b: Seq<Seq<char>>, i: int)
    requires
        0 <= i,
        texts_agree(a, b),
    ensures
        stable_newer_from(a, b, i, true) == lex_newer(a, b, i),
    decreases a.len() - i,
{
    if i < a.len() && i < b.len() && component_value(b[i]) == component_value(a[i]) {
        assert(a[i] == b[i]);
        lemma_lex(a, b, i + 1);
    }
}

proof fn lemma_lex_transitive(a: Seq<Seq<char>>, b: Seq<Seq<char>>, c: Seq<Seq<char>>, i: int)
    requires
        0 <= i <= a.len(),
        i <= b.len(),
        i <= c.len(),
        lex_newer(a, b, i),
        lex_newer(b, c, i),
    ensures
        lex_newer(a, c, i),
    decreases a.len() - i,
{
    if i < a.len() && i < b.len() && i < c.len() && component_value(a[i]) == component_value(b[i])
        && component_value(b[i]) == component_value(c[i]) {
        lemma_lex_transitive(a, b, c, i + 1);
    }
}

/// Newer is transitive into versions of one known kind, when stable ones
/// write equal components alike.
pub proof fn lemma_newer_transitive(x: VersionView, y: VersionView, z: VersionView)
    requires
        newer(x, y),
        newer(y, z),
        same_kind(y, z),
        stable_agree(x, y),
        stable_agree(y, z),
        stable_agree(x, z),
    ensures
        newer(x, z),
{
    match (x, y, z) {
        (VersionView::Stable(a), VersionView::Stable(b), VersionView::Stable(c)) => {
            let (sa, sb, sc) = (split_on(a, '.'), split_on(b, '.'), split_on(c, '.'));
            lemma_lex(sa, sb, 0);
            lemma_lex(sb, sc, 0);
            lemma_lex(sa, sc, 0);
            lemma_lex_transitive(sa, sb, sc, 0);
        },
        _ => {},
    }
}

impl Version {
    /// Reads a version string.
    pub fn from_str(string: &str) -> (r: Version)
        ensures
            r@ == parse_version(string@),
    {
        let cs = chars_of(string);
        if cs.len() > 0 && cs[0] == 'v' {
            let rest = trim_leading(string, 'v');
            Version::Stable(String::from_str(rest))
        } else if cs.len() > 0 && cs[0] == 'D' {
            let rest = chars_of(trim_leading(string, 'D'));
            let digits = if rest.len() > 0 && rest[0] == 'V' {
                tail_from(&rest, 1)
            } else {
                rest
            };
            proof {
                if rest@.len() > 0 && rest@[0] == 'V' {
                    assert(rest@.skip(1) =~= rest@.drop_first());
                }
            }
            match parse_unsigned(&digits, u128::MAX) {
                Some(n) => Version::Dev(n),
                None => Version::Dev(0),
            }
        } else {
            Version::Other
        }
    }

    /// Whether `ver` is newer than `self`.
    pub fn is_newer(&self, ver: &Self) -> (r: bool)
        ensures
            r == newer(self@, ver@),
    {
        match (self, ver) {
            (_, Version::Other) => false,
            (Version::Stable(a), Version::Stable(b)) => Self::compare_stable(a, b),
            (Version::Dev(_), Version::Dev(_)) => ver.get_nmb() > self.get_nmb(),
            _ => true,
        }
    }

    pub fn is_stable(&self) -> (r: bool)
        ensures
            r == (self@ is Stable),
    {
        matches!(self, Version::Stable(_))
    }

    pub fn is_dev(&self) -> (r: bool)
        ensures
            r == (self@ is Dev),
    {
        matches!(self, Version::Dev(_))
    }

    /// Whether the stable version `v2` is newer than `v1`.
    fn compare_stable(v1: &String, v2: &String) -> (r: bool)
        ensures
            r == stable_newer(v1@, v2@),
    {
        let a = split_chars(&chars_of(v1.as_str()), '.');
        let b = split_chars(&chars_of(v2.as_str()), '.');
        let ghost sa = split_on(v1@, '.');
        let ghost sb = split_on(v2@, '.');
        let mut same_beg = true;
        let mut i: usize = 0;
        while i < a.len() && i < b.len()
            invariant
                sa == split_on(v1@, '.'),
                sb == split_on(v2@, '.'),
                a@.len() == sa.len(),
                b@.len() == sb.len(),
                forall|k: int| 0 <= k < a@.len() ==> (#[trigger] a@[k])@ == sa[k],
                forall|k: int| 0 <= k < b@.len() ==> (#[trigger] b@[k])@ == sb[k],
                i <= a.len(),
                stable_newer_from(sa, sb, 0, true) == stable_newer_from(sa, sb, i as int, same_beg),
            decreases a.len() - i,
        {
            let ghost old_same = same_beg;
            if !same_chars(&a[i], &b[i]) {
                same_beg = false;
            }
            let x = Self::component(&a[i]);
            let y = Self::component(&b[i]);
            assert(x == component_value(sa[i as int]) && y == component_value(sb[i as int]));
            assert(same_beg == (old_same && sa[i as int] == sb[i as int]));
            if y > x {
                return true;
            } else if y < x {
                return false;
            }
            i = i + 1;
        }
        same_beg && b.len() > a.len()
    }

    fn component(c: &Vec<char>) -> (r: i64)
        ensures
            r == component_value(c@),
    {
        match parse_i32(c) {
            Some(v) => v as i64,
            None => -1,
        }
    }

    /// The build number of a dev version; 0 for the others.
    fn get_nmb(&self) -> (r: u128)
        ensures
            r == (match self@ {
                VersionView::Dev(n) => n,
                _ => 0,
            }),
    {
        match self {
            Version::Dev(d) => *d,
            _ => 0,
        }
    }

    /// The text of a stable version; empty for the others.
    fn get_str(&self) -> (r: String)
        ensures
            r@ == (match self@ {
                VersionView::Stable(s) => s,
                _ => Seq::empty(),
            }),
    {
        match self {
            Version::Stable(s) => s.clone(),
            _ => String::new(),
        }
    }

    /// The version as devices are told it: the stable text, the build number,
    /// or `Other`.
    pub fn inner_version(&self) -> (r: String)
        ensures
            r@ == version_text(self@),
    {
        match self {
            Version::Stable(s) => s.clone(),
            Version::Dev(n) => u128_text(*n),
            Version::Other => {
                let r = String::from_str("Other");
                proof {
                    reveal_strlit("Other");
                }
                r
            },
        }
    }
}

} // verus!
