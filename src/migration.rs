use vstd::prelude::*;
use vstd::string::*;
use std::hash::{Hash, Hasher};

use crate::error::Error;

verus! {

/// The kind of a migration; only versioned migrations exist so far.
#[derive(Clone, Copy, Debug, PartialEq, Eq, Structural)]
pub enum MigrationPrefix {
    Versioned,
}

/// How far a run may advance: to the newest known migration, or up to a version.
#[derive(Clone, Copy, Debug, PartialEq, Eq, Structural)]
pub enum Target {
    Latest,
    Version(usize),
}

/// A parsed schema migration: `V<version>__<name>` and its script.
#[derive(Clone, Debug)]
pub struct Migration {
    pub name: String,
    pub version: usize,
    pub prefix: MigrationPrefix,
    pub sql: String,
}

/// The SipHash-1-3 fingerprint (zero key) of a name, a version and a script,
/// each fed to the hasher through std's `Hash` in that order.
pub uninterp spec fn checksum_of(name: Seq<char>, version: usize, sql: Seq<char>) -> u64;

/// Relies on siphasher's `SipHasher13::new` (keys 0 and 0), `write` and
/// `finish`, driven by std's `Hash` impls of `str` and `usize`: the result
/// depends on the three values alone.
#[verifier::external_body]
fn sip13_checksum(name: &String, version: usize, sql: &String) -> (r: u64)
    ensures
        r == checksum_of(name@, version, sql@),
{
    let mut hasher = siphasher::sip::SipHasher13::new();
    name.hash(&mut hasher);
    version.hash(&mut hasher);
    sql.hash(&mut hasher);
    hasher.finish()
}

/// Whether `c` is in the regex class `\d`: a Unicode decimal digit (`\p{Nd}`).
pub uninterp spec fn digit_of(c: char) -> bool;

/// Whether `c` is in the regex class `\w`: a Unicode word character.
pub uninterp spec fn word_char_of(c: char) -> bool;

/// Relies on regex's `Regex::new` and `Regex::is_match` with the pattern
/// `^\d$` (Unicode by default): whether the character alone is a digit.
#[verifier::external_body]
fn unicode_digit(c: char) -> (r: bool)
    ensures
        r == digit_of(c),
{
    regex::Regex::new(r"^\d$").unwrap().is_match(&c.to_string())
}

/// Relies on regex's `Regex::new` and `Regex::is_match` with the pattern
/// `^\w$` (Unicode by default): whether the character alone is a word character.
#[verifier::external_body]
fn unicode_word_char(c: char) -> (r: bool)
    ensures
        r == word_char_of(c),
{
    regex::Regex::new(r"^\w$").unwrap().is_match(&c.to_string())
}

pub open spec fn is_ascii_digit(c: char) -> bool {
    '0' <= c && c <= '9'
}

/// End of the longest run of digits in `s` that starts at `i`.
pub open spec fn digit_run(s: Seq<char>, i: int) -> int
    decreases s.len() - i,
{
    if 0 <= i < s.len() && digit_of(s[i]) {
        digit_run(s, i + 1)
    } else {
        i
    }
}

/// End of the longest run of word characters in `s` that starts at `i`.
pub open spec fn word_run(s: Seq<char>, i: int) -> int
    decreases s.len() - i,
{
    if 0 <= i < s.len() && word_char_of(s[i]) {
        word_run(s, i + 1)
    } else {
        i
    }
}

/// End of the integral digits of the version, which start after the `V`.
pub open spec fn int_end(s: Seq<char>) -> int {
    digit_run(s, 1)
}

/// Whether the version carries a fractional part `.<digits>`.
pub open spec fn has_fraction(s: Seq<char>) -> bool {
    int_end(s) < s.len() && s[int_end(s)] == '.' && digit_run(s, int_end(s) + 1) > int_end(s) + 1
}

/// End of the whole version segment.
pub open spec fn version_end(s: Seq<char>) -> int {
    if has_fraction(s) {
        digit_run(s, int_end(s) + 1)
    } else {
        int_end(s)
    }
}

/// Start of the name, after the `__` separator.
pub open spec fn name_start(s: Seq<char>) -> int {
    version_end(s) + 2
}

/// End of the name: the longest run of word characters.
pub open spec fn name_end(s: Seq<char>) -> int {
    word_run(s, name_start(s))
}

/// Whether `s` begins with `V<digits>[.<digits>]__<word chars>`.
pub open spec fn name_matches(s: Seq<char>) -> bool {
    &&& s.len() > 0
    &&& s[0] == 'V'
    &&& int_end(s) > 1
    &&& name_start(s) <= s.len()
    &&& s[version_end(s)] == '_'
    &&& s[version_end(s) + 1] == '_'
    &&& name_end(s) > name_start(s)
}

/// The number that a string of decimal digits denotes.
pub open spec fn digits_value(d: Seq<char>) -> nat
    decreases d.len(),
{
    if d.len() == 0 {
        0
    } else {
        digits_value(d.drop_last()) * 10 + (d.last() as nat - '0' as nat) as nat
    }
}

/// The version number written in a matching file name.
pub open spec fn version_value(s: Seq<char>) -> nat {
    digits_value(s.subrange(1, int_end(s)))
}

/// Whether the integral digits of the version are all ASCII.
pub open spec fn ascii_version(s: Seq<char>) -> bool {
    forall|k: int| 1 <= k < int_end(s) ==> is_ascii_digit(#[trigger] s[k])
}

/// Whether the version of a matching name is an integer, written in ASCII
/// digits, that fits a `usize`.
pub open spec fn version_fits(s: Seq<char>) -> bool {
    !has_fraction(s) && ascii_version(s) && version_value(s) <= usize::MAX
}

fn digit_at(s: &str, i: usize) -> (r: bool)
    requires
        i < s@.len(),
    ensures
        r == digit_of(s@[i as int]),
{
    unicode_digit(s.get_char(i))
}

fn word_at(s: &str, i: usize) -> (r: bool)
    requires
        i < s@.len(),
    ensures
        r == word_char_of(s@[i as int]),
{
    unicode_word_char(s.get_char(i))
}

/// The character of a decimal digit.
pub open spec fn digit_char(d: nat) -> char {
    seq!['0', '1', '2', '3', '4', '5', '6', '7', '8', '9'][d as int]
}

/// The decimal digits of `n`, most significant first, without leading zeros.
pub open spec fn decimal_of(n: nat) -> Seq<char>
    decreases n,
{
    if n < 10 {
        seq![digit_char(n)]
    } else {
        decimal_of(n / 10).push(digit_char(n % 10))
    }
}

/// Relies on std's `Display` for `u64` (through `to_string`): its decimal
/// digits, with no sign and no padding.
#[verifier::external_body]
fn decimal_string(n: u64) -> (r: String)
    ensures
        r@ == decimal_of(n as nat),
{
    n.to_string()
}

impl Migration {
    /// The fingerprint of this migration, as stored in the history table.
    pub open spec fn spec_checksum(&self) -> u64 {
        checksum_of(self.name@, self.version, self.sql@)
    }

    pub fn copied(&self) -> (r: Migration)
        ensures
            r == *self,
    {
        Migration {
            name: self.name.clone(),
            version: self.version,
            prefix: self.prefix,
            sql: self.sql.clone(),
        }
    }

    /// Parses `V<version>__<name>` (anything after the name is ignored).
    pub fn from_filename(name: &str, sql: &str) -> (r: Result<Migration, Error>)
        ensures
            !name_matches(name@) ==> r == Err::<Migration, Error>(Error::InvalidName),
            name_matches(name@) && !version_fits(name@) ==> r == Err::<Migration, Error>(
                Error::InvalidVersion,
            ),
            name_matches(name@) && version_fits(name@) ==> r is Ok && r->Ok_0.version
                == version_value(name@) && r->Ok_0.name@ == name@.subrange(
                name_start(name@),
                name_end(name@),
            ) && r->Ok_0.sql@ == sql@ && r->Ok_0.prefix == MigrationPrefix::Versioned,
    {
        let ghost s = name@;
        let n = name.unicode_len();
        if n == 0 || name.get_char(0) != 'V' {
            return Err(Error::InvalidName);
        }
        // integral digits, accumulated while they are ASCII, with overflow detection
        let mut i: usize = 1;
        let mut value: usize = 0;
        let mut overflow = false;
        let mut ascii = true;
        while i < n && digit_at(name, i)
            invariant
                n == s.len(),
                name@ == s,
                1 <= i <= n,
                digit_run(s, 1) == digit_run(s, i as int),
                ascii == (forall|k: int| 1 <= k < i ==> is_ascii_digit(#[trigger] s[k])),
                ascii && !overflow ==> value == digits_value(s.subrange(1, i as int)),
                ascii && overflow ==> digits_value(s.subrange(1, i as int)) > usize::MAX,
            decreases n - i,
        {
            let c = name.get_char(i);
            if '0' <= c && c <= '9' {
                let d = (c as u32 - '0' as u32) as usize;
                proof {
                    let t = s.subrange(1, i as int + 1);
                    assert(t.drop_last() =~= s.subrange(1, i as int));
                    assert(t.last() == c);
                    assert(digits_value(t) == digits_value(s.subrange(1, i as int)) * 10 + d);
                }
                if ascii && !overflow {
                    match value.checked_mul(10) {
                        Some(v10) => match v10.checked_add(d) {
                            Some(v) => {
                                value = v;
                            },
                            None => {
                                overflow = true;
                            },
                        },
                        None => {
                            proof {
                                assert(digits_value(s.subrange(1, i as int)) * 10 + d
                                    > usize::MAX) by (nonlinear_arith)
                                    requires
                                        digits_value(s.subrange(1, i as int)) * 10 > usize::MAX,
                                ;
                            }
                            overflow = true;
                        },
                    }
                } else if ascii {
                    proof {
                        assert(digits_value(s.subrange(1, i as int)) * 10 + d
                            > usize::MAX) by (nonlinear_arith)
                            requires
                                digits_value(s.subrange(1, i as int)) > usize::MAX,
                        ;
                    }
                }
            } else {
                ascii = false;
            }
            i = i + 1;
        }
        let int_stop = i;
        assert(int_stop == int_end(s));
        if int_stop == 1 {
            return Err(Error::InvalidName);
        }
        // optional fractional part
        let mut fraction = false;
        if n - i > 1 && name.get_char(i) == '.' {
            let mut j: usize = i + 1;
            while j < n && digit_at(name, j)
                invariant
                    n == s.len(),
                    name@ == s,
                    int_stop + 1 <= j <= n,
                    digit_run(s, int_stop + 1) == digit_run(s, j as int),
                decreases n - j,
            {
                j = j + 1;
            }
            if j > int_stop + 1 {
                fraction = true;
                i = j;
            }
        }
        assert(fraction == has_fraction(s));
        assert(i == version_end(s));
        if n - i < 2 || name.get_char(i) != '_' || name.get_char(i + 1) != '_' {
            return Err(Error::InvalidName);
        }
        let start = i + 2;
        let mut k: usize = start;
        while k < n && word_at(name, k)
            invariant
                n == s.len(),
                name@ == s,
                start <= k <= n,
                word_run(s, start as int) == word_run(s, k as int),
            decreases n - k,
        {
            k = k + 1;
        }
        if k == start {
            return Err(Error::InvalidName);
        }
        if fraction || !ascii || overflow {
            return Err(Error::InvalidVersion);
        }
        Ok(
            Migration {
                name: name.substring_char(start, k).to_owned(),
                version: value,
                prefix: MigrationPrefix::Versioned,
                sql: sql.to_owned(),
            },
        )
    }

    /// The fingerprint of name, version and script, in that order.
    pub fn checksum(&self) -> (r: u64)
        ensures
            r == self.spec_checksum(),
    {
        sip13_checksum(&self.name, self.version, &self.sql)
    }

    /// The fingerprint in the decimal form that the history table stores.
    pub fn checksum_string(&self) -> (r: String)
        ensures
            r@ == decimal_of(self.spec_checksum() as nat),
    {
        decimal_string(self.checksum())
    }
}

/// Two migrations are equal when version, name and checksum agree.
impl PartialEq for Migration {
    fn eq(&self, other: &Migration) -> (r: bool) {
        self.version == other.version && self.name == other.name && self.checksum()
            == other.checksum()
    }
}

impl vstd::std_specs::cmp::PartialEqSpecImpl for Migration {
    open spec fn obeys_eq_spec() -> bool {
        true
    }

    open spec fn eq_spec(&self, other: &Migration) -> bool {
        self.version == other.version && self.name@ == other.name@ && self.spec_checksum()
            == other.spec_checksum()
    }
}

impl Eq for Migration {}

/// Migrations are ordered by version alone.
pub open spec fn version_order(a: usize, b: usize) -> std::cmp::Ordering {
    if a < b {
        std::cmp::Ordering::Less
    } else if a == b {
        std::cmp::Ordering::Equal
    } else {
        std::cmp::Ordering::Greater
    }
}

impl PartialOrd for Migration {
    fn partial_cmp(&self, other: &Migration) -> (r: Option<std::cmp::Ordering>) {
        if self.version < other.version {
            Some(std::cmp::Ordering::Less)
        } else if self.version == other.version {
            Some(std::cmp::Ordering::Equal)
        } else {
            Some(std::cmp::Ordering::Greater)
        }
    }
}

impl vstd::std_specs::cmp::PartialOrdSpecImpl for Migration {
    open spec fn obeys_partial_cmp_spec() -> bool {
        true
    }

    open spec fn partial_cmp_spec(&self, other: &Migration) -> Option<std::cmp::Ordering> {
        Some(version_order(self.version, other.version))
    }
}

} // verus!
