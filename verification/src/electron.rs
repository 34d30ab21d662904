//! Quantum-orbital model: the [`Suborbital`] value type (principal quantum
//! number, azimuthal quantum number, electron count), the ordered
//! [`ElectronConfiguration`] it composes into, and the textual notation
//! (`"1s2 2s2 2p6"`) parsed from and rendered back to text.

use crate::text::{
    all_dec_digits, dec_digits, digit_char, digit_val, digits_val, is_dec_digit,
    lemma_dec_digits_val, lemma_digits_val_prefix_mono, lower_char, push_dec, push_sup, sup_digits,
};
use crate::DataError;
use vstd::prelude::*;

verus! {

/// Block character standing for an azimuthal quantum number:
/// 0 is 's', 1 is 'p', 2 is 'd', 3 is 'f' (meaningful only for 0..=3).
pub open spec fn spec_block_char(aqn: int) -> char {
    if aqn == 0 {
        's'
    } else if aqn == 1 {
        'p'
    } else if aqn == 2 {
        'd'
    } else {
        'f'
    }
}

/// True for the characters naming a block, in either case: s, p, d, f.
pub open spec fn is_block_letter(c: char) -> bool {
    lower_char(c) == 's' || lower_char(c) == 'p' || lower_char(c) == 'd' || lower_char(c) == 'f'
}

/// Azimuthal quantum number named by a block letter (meaningful only when
/// `is_block_letter` holds).
pub open spec fn letter_aqn(c: char) -> int {
    if lower_char(c) == 's' {
        0
    } else if lower_char(c) == 'p' {
        1
    } else if lower_char(c) == 'd' {
        2
    } else {
        3
    }
}

/// The notation grammar for one token: a principal quantum number digit
/// (1..=9), a block letter (case-insensitive), and at least one decimal
/// digit of electron count.
pub open spec fn token_shape_ok(t: Seq<char>) -> bool {
    &&& t.len() >= 3
    &&& '1' <= t[0] && t[0] <= '9'
    &&& is_block_letter(t[1])
    &&& all_dec_digits(t.subrange(2, t.len() as int))
}

/// The electron count written in a token's digit suffix.
pub open spec fn token_count(t: Seq<char>) -> int {
    digits_val(t.subrange(2, t.len() as int))
}

/// A token the parser accepts: grammatical shape, and an electron count
/// that fits the stored width.
pub open spec fn token_ok(t: Seq<char>) -> bool {
    token_shape_ok(t) && token_count(t) <= u8::MAX
}

/// The suborbital a token denotes (meaningful only when `token_ok` holds).
pub open spec fn token_suborbital(t: Seq<char>) -> Suborbital {
    Suborbital(digit_val(t[0]) as u8, letter_aqn(t[1]) as u8, token_count(t) as u8)
}

/// The fields of `s` between single-space separators, in order: splitting on
/// every space, so consecutive spaces yield empty fields and the empty
/// string yields one empty field.
pub open spec fn split_spaces(s: Seq<char>) -> Seq<Seq<char>>
    decreases s.len(),
{
    if s.len() == 0 {
        seq![Seq::<char>::empty()]
    } else if s[0] == ' ' {
        seq![Seq::<char>::empty()] + split_spaces(s.drop_first())
    } else {
        let rest = split_spaces(s.drop_first());
        seq![seq![s[0]] + rest[0]] + rest.drop_first()
    }
}

/// A split always yields at least one field.
pub proof fn lemma_split_spaces_len(s: Seq<char>)
    ensures
        split_spaces(s).len() >= 1,
    decreases s.len(),
{
    if s.len() > 0 {
        lemma_split_spaces_len(s.drop_first());
    }
}

/// If the first `j` characters of `s` are not spaces and position `j` is a
/// space (or the end), then the split's first field is exactly `s[..j]` and
/// the remaining fields are the split of what follows the space.
pub proof fn lemma_split_spaces_first(s: Seq<char>, j: int)
    requires
        0 <= j <= s.len(),
        forall|k: int| 0 <= k < j ==> s[k] != ' ',
        j < s.len() ==> s[j] == ' ',
    ensures
        j == s.len() ==> split_spaces(s) =~~= seq![s],
        j < s.len() ==> split_spaces(s) =~~= seq![s.subrange(0, j)] + split_spaces(
            s.subrange(j + 1, s.len() as int),
        ),
    decreases j,
{
    lemma_split_spaces_len(s);
    if j == 0 {
        if s.len() == 0 {
        } else if j < s.len() {
            assert(s[0] == ' ');
            assert(s.drop_first() =~= s.subrange(1, s.len() as int));
            assert(s.subrange(0, 0) =~= Seq::<char>::empty());
        }
    } else {
        assert(s[0] != ' ');
        let d = s.drop_first();
        lemma_split_spaces_len(d);
        lemma_split_spaces_first(d, j - 1);
        let rest = split_spaces(d);
        if j == s.len() {
            assert(rest =~~= seq![d]);
            assert(seq![s[0]] + rest[0] =~= s);
            assert(split_spaces(s) =~~= seq![s]);
        } else {
            assert(d[j - 1] == s[j]);
            assert(rest =~~= seq![d.subrange(0, j - 1)] + split_spaces(
                d.subrange(j, d.len() as int),
            ));
            assert(seq![s[0]] + rest[0] =~= s.subrange(0, j));
            assert(d.subrange(j, d.len() as int) =~= s.subrange(j + 1, s.len() as int));
            assert(rest.drop_first() =~~= split_spaces(s.subrange(j + 1, s.len() as int)));
            assert(split_spaces(s) =~~= seq![s.subrange(0, j)] + split_spaces(
                s.subrange(j + 1, s.len() as int),
            ));
        }
    }
}

/// True when every field of the split is an acceptable token.
pub open spec fn all_tokens_ok(toks: Seq<Seq<char>>) -> bool {
    forall|i: int| 0 <= i < toks.len() ==> token_ok(#[trigger] toks[i])
}

/// The suborbitals the fields denote, in field order.
pub open spec fn parsed_suborbitals(toks: Seq<Seq<char>>) -> Seq<Suborbital> {
    Seq::new(toks.len(), |i: int| token_suborbital(toks[i]))
}

/// Position `i` holds the leftmost unacceptable field of the split.
pub open spec fn first_bad_token(toks: Seq<Seq<char>>, i: int) -> bool {
    &&& 0 <= i < toks.len()
    &&& !token_ok(toks[i])
    &&& forall|j: int| 0 <= j < i ==> token_ok(#[trigger] toks[j])
}

/// One electron sub-shell occupancy record: principal quantum number,
/// azimuthal quantum number, electron count, in that field order.
///
/// Immutable value type; created by the configuration parser or by explicit
/// construction, which performs no validation beyond the field types.
#[derive(Clone, Copy, Debug, PartialEq, Eq, Structural, PartialOrd, Ord, Hash)]
pub struct Suborbital(pub u8, pub u8, pub u8);

impl Suborbital {
    /// A suborbital whose azimuthal quantum number names one of the four
    /// blocks s, p, d, f; only such values have a textual rendering.
    pub open spec fn wf(self) -> bool {
        self.1 <= 3
    }

    /// Plain rendering: principal number, block character, electron count,
    /// e.g. "2p6".
    pub open spec fn plain_seq(self) -> Seq<char> {
        dec_digits(self.0 as int) + seq![spec_block_char(self.1 as int)] + dec_digits(
            self.2 as int,
        )
    }

    /// Stylized rendering: principal number, block character, electron count
    /// in Unicode superscript digits, e.g. "2p⁶".
    pub open spec fn stylized_seq(self) -> Seq<char> {
        dec_digits(self.0 as int) + seq![spec_block_char(self.1 as int)] + sup_digits(
            self.2 as int,
        )
    }

    #[must_use]
    pub fn principal_quantum_number(&self) -> (r: u8)
        ensures
            r == self.0,
    {
        self.0
    }

    #[must_use]
    pub fn azimuthal_quantum_number(&self) -> (r: u8)
        ensures
            r == self.1,
    {
        self.1
    }

    /// The block character of this suborbital's azimuthal quantum number.
    ///
    /// An azimuthal quantum number outside 0..=3 is a contract violation
    /// (it indicates malformed static data), so callers must rule it out.
    #[must_use]
    pub fn block(&self) -> (r: char)
        requires
            self.wf(),
        ensures
            r == spec_block_char(self.1 as int),
    {
        match self.1 {
            0 => 's',
            1 => 'p',
            2 => 'd',
            _ => 'f',
        }
    }

    #[must_use]
    pub fn electron_number(&self) -> (r: u8)
        ensures
            r == self.2,
    {
        self.2
    }

    /// Renders as "{principal}{block}{superscript electron count}".
    #[must_use]
    pub fn to_string_stylized(&self) -> (r: String)
        requires
            self.wf(),
        ensures
            r@ == self.stylized_seq(),
    {
        let mut s = String::new();
        push_dec(&mut s, self.0);
        s.append(block_str(self.1));
        push_sup(&mut s, self.2);
        proof {
            assert(s@ =~= self.stylized_seq());
        }
        s
    }

    /// Renders as "{principal}{block}{electron count}".
    #[must_use]
    pub fn to_string_nonstylized(&self) -> (r: String)
        requires
            self.wf(),
        ensures
            r@ == self.plain_seq(),
    {
        let mut s = String::new();
        push_dec(&mut s, self.0);
        s.append(block_str(self.1));
        push_dec(&mut s, self.2);
        proof {
            assert(s@ =~= self.plain_seq());
        }
        s
    }

    #[must_use]
    pub fn new(pqn: u8, aqn: u8, en: u8) -> (r: Self)
        ensures
            r.0 == pqn,
            r.1 == aqn,
            r.2 == en,
    {
        Suborbital(pqn, aqn, en)
    }
}

/// The malformed-token error for the token at `text[start..end]` (character
/// positions).
fn token_err(text: &str, start: usize, end: usize) -> (r: DataError)
    requires
        start <= end && end <= text@.len(),
    ensures
        r matches DataError::MalformedConfiguration(t) && t@ == text@.subrange(
            start as int,
            end as int,
        ),
{
    let tok = text.substring_char(start, end);
    DataError::MalformedConfiguration(tok.to_owned())
}

/// Parses one token of the notation, at character positions
/// `text[start..end]`.
#[verifier::loop_isolation(false)]
fn parse_token(text: &str, start: usize, end: usize) -> (r: Result<Suborbital, DataError>)
    requires
        start <= end && end <= text@.len(),
    ensures
        ({
            let tok = text@.subrange(start as int, end as int);
            match r {
                Ok(sub) => token_ok(tok) && sub == token_suborbital(tok),
                Err(e) => !token_ok(tok) && (e matches DataError::MalformedConfiguration(t) && t@
                    == tok),
            }
        }),
{
    let ghost tok = text@.subrange(start as int, end as int);
    if end - start < 3 {
        return Err(token_err(text, start, end));
    }
    let c0 = text.get_char(start);
    proof {
        assert(tok[0] == c0);
    }
    let pqn: u8 = match c0 {
        '1' => 1,
        '2' => 2,
        '3' => 3,
        '4' => 4,
        '5' => 5,
        '6' => 6,
        '7' => 7,
        '8' => 8,
        '9' => 9,
        _ => {
            proof {
                assert(!('1' <= c0 && c0 <= '9'));
            }
            return Err(token_err(text, start, end));
        },
    };
    assert('1' <= c0 && c0 <= '9' && pqn == digit_val(c0));
    let c1 = text.get_char(start + 1);
    proof {
        assert(tok[1] == c1);
    }
    let aqn: u8 = match c1 {
        's' | 'S' => 0,
        'p' | 'P' => 1,
        'd' | 'D' => 2,
        'f' | 'F' => 3,
        _ => {
            proof {
                assert(!is_block_letter(c1));
            }
            return Err(token_err(text, start, end));
        },
    };
    assert(is_block_letter(c1) && aqn == letter_aqn(c1));
    let mut val: u32 = 0;
    let mut j: usize = start + 2;
    while j < end
        invariant
            start + 2 <= j <= end,
            val == digits_val(tok.subrange(2, (j - start) as int)),
            val <= 255,
            forall|k: int| 2 <= k < j - start ==> is_dec_digit(#[trigger] tok[k]),
        decreases end - j,
    {
        let c = text.get_char(j);
        proof {
            assert(tok[j - start] == c);
        }
        let d: u8 = match c {
            '0' => 0,
            '1' => 1,
            '2' => 2,
            '3' => 3,
            '4' => 4,
            '5' => 5,
            '6' => 6,
            '7' => 7,
            '8' => 8,
            '9' => 9,
            _ => {
                proof {
                    assert(!is_dec_digit(c));
                    assert(tok.subrange(2, tok.len() as int)[j - start - 2] == c);
                    assert(!all_dec_digits(tok.subrange(2, tok.len() as int)));
                }
                return Err(token_err(text, start, end));
            },
        };
        assert(is_dec_digit(c) && d == digit_val(c));
        val = val * 10 + d as u32;
        proof {
            let p = tok.subrange(2, (j - start) as int);
            let q = tok.subrange(2, (j + 1 - start) as int);
            assert(q.drop_last() =~= p);
            assert(q.last() == c);
            assert(digits_val(q) == digits_val(p) * 10 + digit_val(c));
        }
        if val > 255 {
            proof {
                let digits = tok.subrange(2, tok.len() as int);
                let q = tok.subrange(2, (j + 1 - start) as int);
                assert(digits.subrange(0, (j + 1 - start - 2) as int) =~= q);
                lemma_digits_val_prefix_mono(digits, j + 1 - start - 2);
                assert(token_count(tok) > 255);
            }
            return Err(token_err(text, start, end));
        }
        j = j + 1;
    }
    proof {
        let digits = tok.subrange(2, tok.len() as int);
        assert(digits =~= tok.subrange(2, (end - start) as int));
        assert(all_dec_digits(digits));
        assert(token_shape_ok(tok));
        assert(token_count(tok) == val);
    }
    Ok(Suborbital(pqn, aqn, val as u8))
}

/// One-character string for a block letter, by azimuthal quantum number.
fn block_str(aqn: u8) -> (r: &'static str)
    requires
        aqn <= 3,
    ensures
        r@ == seq![spec_block_char(aqn as int)],
{
    proof {
        reveal_strlit("s");
        reveal_strlit("p");
        reveal_strlit("d");
        reveal_strlit("f");
    }
    let r = match aqn {
        0 => "s",
        1 => "p",
        2 => "d",
        _ => "f",
    };
    proof {
        assert(r@ =~= seq![spec_block_char(aqn as int)]);
    }
    r
}

/// An ordered sequence of suborbitals describing an atom's electron
/// arrangement, in written (physical filling) order: the parser neither
/// reorders, deduplicates nor merges repeated orbitals.
#[derive(Clone, Debug, PartialEq, Eq, Hash)]
pub struct ElectronConfiguration(Vec<Suborbital>);

impl View for ElectronConfiguration {
    type V = Seq<Suborbital>;

    closed spec fn view(&self) -> Seq<Suborbital> {
        self.0@
    }
}

/// Rendering of a suborbital sequence, joined with single spaces; the empty
/// sequence renders as the empty string. `plain` selects the plain form,
/// otherwise the stylized form.
pub open spec fn config_seq(s: Seq<Suborbital>, plain: bool) -> Seq<char>
    decreases s.len(),
{
    if s.len() == 0 {
        Seq::empty()
    } else if s.len() == 1 {
        if plain {
            s[0].plain_seq()
        } else {
            s[0].stylized_seq()
        }
    } else {
        config_seq(s.drop_last(), plain) + seq![' '] + (if plain {
            s.last().plain_seq()
        } else {
            s.last().stylized_seq()
        })
    }
}

impl ElectronConfiguration {
    /// Every suborbital of the configuration has a renderable block.
    pub open spec fn wf(self) -> bool {
        forall|i: int| 0 <= i < self@.len() ==> (#[trigger] self@[i]).wf()
    }

    #[must_use]
    pub fn suborbitals(&self) -> (r: &Vec<Suborbital>)
        ensures
            r@ == self@,
    {
        &self.0
    }

    #[must_use]
    pub fn new(suborbitals: Vec<Suborbital>) -> (r: Self)
        ensures
            r@ == suborbitals@,
    {
        ElectronConfiguration(suborbitals)
    }

    /// Parses the space-separated notation into a configuration, one
    /// suborbital per token, in token order: repeated orbitals are kept, and
    /// nothing is reordered or merged.
    ///
    /// Fails with [`DataError::MalformedConfiguration`], carrying the
    /// leftmost offending token, exactly when some token breaks the grammar
    /// `"{1-9}{s|p|d|f}{0-9}+"` or its electron count does not fit.
    #[verifier::loop_isolation(false)]
    pub fn parse(text: &str) -> (r: Result<ElectronConfiguration, DataError>)
        ensures
            ({
                let toks = split_spaces(text@);
                match r {
                    Ok(cfg) => all_tokens_ok(toks) && cfg@ == parsed_suborbitals(toks)
                        && cfg.wf(),
                    Err(e) => !all_tokens_ok(toks) && exists|i: int|
                        #![auto]
                        first_bad_token(toks, i) && (e matches DataError::MalformedConfiguration(t)
                            && t@ == toks[i]),
                }
            }),
    {
        let n = text.unicode_len();
        let ghost toks = split_spaces(text@);
        let mut subs: Vec<Suborbital> = Vec::new();
        let mut start: usize = 0;
        let ghost mut done: int = 0;
        proof {
            assert(text@.subrange(0, n as int) =~= text@);
            assert(toks.take(0) =~= Seq::<Seq<char>>::empty());
        }
        loop
            invariant
                start <= n,
                0 <= done <= toks.len(),
                toks == toks.take(done) + split_spaces(text@.subrange(start as int, n as int)),
                forall|j: int| 0 <= j < done ==> token_ok(#[trigger] toks[j]),
                subs@ == parsed_suborbitals(toks.take(done)),
            decreases n - start,
        {
            let mut i = start;
            #[verifier::loop_isolation(true)]
            while i < n
                invariant
                    start <= i <= n,
                    n == text@.len(),
                    forall|k: int| start <= k < i ==> text@[k] != ' ',
                ensures
                    start <= i <= n,
                    forall|k: int| start <= k < i ==> text@[k] != ' ',
                    i < n ==> text@[i as int] == ' ',
                decreases n - i,
            {
                if text.get_char(i) == ' ' {
                    break ;
                }
                i = i + 1;
            }
            let ghost suffix = text@.subrange(start as int, n as int);
            let ghost tok = text@.subrange(start as int, i as int);
            proof {
                assert(forall|k: int| 0 <= k < i - start ==> suffix[k] != ' ');
                lemma_split_spaces_first(suffix, i - start);
                assert(suffix.subrange(0, i - start) =~= tok);
                lemma_split_spaces_len(text@.subrange(start as int, n as int));
                assert(toks.take(done).len() == done);
                assert(toks[done] == split_spaces(suffix)[0]);
                if i < n {
                    assert(split_spaces(suffix)[0] == tok);
                } else {
                    assert(suffix =~= tok);
                    assert(split_spaces(suffix)[0] == tok);
                }
            }
            match parse_token(text, start, i) {
                Err(e) => {
                    proof {
                        assert(first_bad_token(toks, done));
                        assert(!all_tokens_ok(toks));
                    }
                    return Err(e);
                },
                Ok(sub) => {
                    subs.push(sub);
                    proof {
                        done = done + 1;
                        assert(toks.take(done) =~~= toks.take(done - 1) + seq![tok]);
                        assert(subs@ =~= parsed_suborbitals(toks.take(done)));
                    }
                    if i == n {
                        proof {
                            assert(split_spaces(suffix) =~~= seq![tok]);
                            assert(toks =~~= toks.take(done));
                            assert(subs@ == parsed_suborbitals(toks));
                            assert(forall|k: int|
                                0 <= k < subs@.len() ==> (#[trigger] subs@[k]).wf());
                        }
                        return Ok(ElectronConfiguration(subs));
                    }
                    proof {
                        let rest = text@.subrange(i + 1, n as int);
                        assert(suffix.subrange(i - start + 1, suffix.len() as int) =~= rest);
                        assert(split_spaces(suffix) =~~= seq![tok] + split_spaces(rest));
                        assert(toks =~~= toks.take(done) + split_spaces(rest));
                    }
                    start = i + 1;
                },
            }
        }
    }

    /// Renders the configuration, each suborbital in its plain or stylized
    /// form, joined with single spaces.
    #[must_use]
    pub fn format(&self, plain: bool) -> (r: String)
        requires
            self.wf(),
        ensures
            r@ == config_seq(self@, plain),
    {
        let mut s = String::new();
        let mut i: usize = 0;
        while i < self.0.len()
            invariant
                i <= self.0.len(),
                self.wf(),
                s@ == config_seq(self@.take(i as int), plain),
            decreases self.0.len() - i,
        {
            proof {
                reveal_strlit(" ");
            }
            if i > 0 {
                s.append(" ");
            }
            let sub = self.0[i];
            let rendered = if plain {
                sub.to_string_nonstylized()
            } else {
                sub.to_string_stylized()
            };
            s.append(rendered.as_str());
            i = i + 1;
            proof {
                let t = self@.take(i as int);
                assert(t.len() == i);
                assert(t.last() == self@[i as int - 1]);
                if i == 1 {
                    assert(self@.take(0) =~= Seq::<Suborbital>::empty());
                    assert(config_seq(Seq::<Suborbital>::empty(), plain) == Seq::<char>::empty());
                    assert(s@ =~= config_seq(t, plain));
                } else {
                    assert(t.drop_last() =~= self@.take(i as int - 1));
                    assert(config_seq(t, plain) == config_seq(t.drop_last(), plain) + seq![' ']
                        + (if plain {
                        t.last().plain_seq()
                    } else {
                        t.last().stylized_seq()
                    }));
                    assert(s@ =~= config_seq(t, plain));
                }
            }
        }
        proof {
            assert(self@.take(self.0.len() as int) =~= self@);
        }
        s
    }
}

/// Data pertaining to the element's energy levels. The optional electron
/// affinity, electronegativity and ionization energies are carried as
/// IEEE-754 bit patterns of the loader's double-precision values,
/// uninterpreted (this crate does no floating-point computation); an absent
/// ionization-energy sequence means "no data".
#[derive(Clone, Debug, PartialEq, Eq, Hash)]
pub struct ElectronData {
    pub configuration: ElectronConfiguration,
    pub affinity: Option<u64>,
    pub electronegativity: Option<u64>,
    pub ionization_energies: Option<Vec<u64>>,
    pub shells: Vec<u8>,
}

impl ElectronData {
    #[must_use]
    pub fn configuration(&self) -> (r: &ElectronConfiguration)
        ensures
            r == self.configuration,
    {
        &self.configuration
    }

    /// Electron affinity in kJ/mol, as an IEEE-754 bit pattern
    #[must_use]
    pub fn electron_affinity(&self) -> (r: Option<u64>)
        ensures
            r == self.affinity,
    {
        self.affinity
    }

    /// Electronegativity on the Pauling scale, as an IEEE-754 bit pattern
    #[must_use]
    pub fn electronegativity(&self) -> (r: Option<u64>)
        ensures
            r == self.electronegativity,
    {
        self.electronegativity
    }

    /// Ionization energies in kJ/mol, as IEEE-754 bit patterns; `None` means
    /// no data (an empty sequence is normalized away at construction).
    #[must_use]
    pub fn ionization_energies(&self) -> (r: Option<&Vec<u64>>)
        ensures
            r is Some <==> self.ionization_energies is Some,
            r is Some ==> r->0 == self.ionization_energies->0,
    {
        self.ionization_energies.as_ref()
    }

    /// Electron occupancy of each shell, innermost first.
    #[must_use]
    pub fn shells(&self) -> (r: &Vec<u8>)
        ensures
            r == self.shells,
    {
        &self.shells
    }

    #[must_use]
    pub fn new(
        configuration: ElectronConfiguration,
        affinity: Option<u64>,
        electronegativity: Option<u64>,
        ionization_energies: Option<Vec<u64>>,
        shells: Vec<u8>,
    ) -> (r: Self)
        ensures
            r.configuration == configuration,
            r.affinity == affinity,
            r.electronegativity == electronegativity,
            r.ionization_energies == ionization_energies,
            r.shells == shells,
    {
        ElectronData { configuration, affinity, electronegativity, ionization_energies, shells }
    }
}

/// The plain rendering of a suborbital with a single-digit principal
/// quantum number is itself an acceptable, space-free token and denotes the
/// same suborbital.
pub proof fn lemma_plain_seq_token(sub: Suborbital)
    requires
        1 <= sub.0 <= 9,
        sub.1 <= 3,
    ensures
        token_ok(sub.plain_seq()),
        token_suborbital(sub.plain_seq()) == sub,
        forall|k: int| 0 <= k < sub.plain_seq().len() ==> (#[trigger] sub.plain_seq()[k]) != ' ',
{
    let u = sub.plain_seq();
    assert(dec_digits(sub.0 as int) =~= seq![digit_char(sub.0 as int)]);
    lemma_dec_digits_val(sub.2 as int);
    assert(u =~= seq![digit_char(sub.0 as int), spec_block_char(sub.1 as int)] + dec_digits(
        sub.2 as int,
    ));
    assert(u.len() >= 3);
    assert(u[0] == digit_char(sub.0 as int));
    assert('1' <= u[0] && u[0] <= '9');
    assert(u[1] == spec_block_char(sub.1 as int));
    assert(is_block_letter(u[1]));
    assert(letter_aqn(u[1]) == sub.1 as int);
    assert(u.subrange(2, u.len() as int) =~= dec_digits(sub.2 as int));
    assert(all_dec_digits(u.subrange(2, u.len() as int)));
    assert(token_count(u) == sub.2 as int);
    assert(digit_val(u[0]) == sub.0 as int);
    assert(token_suborbital(u) == sub);
    assert forall|k: int| 0 <= k < u.len() implies (#[trigger] u[k]) != ' ' by {
        if k >= 2 {
            assert(is_dec_digit(u[k]));
        }
    }
}

/// Law: parsing a valid token and rendering the resulting suborbital in
/// plain form reproduces an equivalent token — same principal quantum
/// number, same block letter (canonically lowercased), same electron count —
/// so the rendered token parses back to the very same suborbital.
pub proof fn lemma_token_round_trip(t: Seq<char>)
    requires
        token_ok(t),
    ensures
        token_ok(token_suborbital(t).plain_seq()),
        token_suborbital(token_suborbital(t).plain_seq()) == token_suborbital(t),
{
    let sub = token_suborbital(t);
    lemma_token_count_bounds(t);
    assert(1 <= sub.0 <= 9);
    assert(sub.1 <= 3);
    lemma_plain_seq_token(sub);
}

/// Left-recursive unfolding of the configuration rendering: for two or more
/// suborbitals, the text is the first rendering, a space, and the rendering
/// of the rest.
proof fn lemma_config_seq_left(s: Seq<Suborbital>, plain: bool)
    requires
        s.len() >= 2,
    ensures
        config_seq(s, plain) == (if plain {
            s[0].plain_seq()
        } else {
            s[0].stylized_seq()
        }) + seq![' '] + config_seq(s.drop_first(), plain),
    decreases s.len(),
{
    let head = if plain {
        s[0].plain_seq()
    } else {
        s[0].stylized_seq()
    };
    if s.len() == 2 {
        assert(s.drop_last() =~= seq![s[0]]);
        assert(s.drop_first() =~= seq![s[1]]);
        assert(config_seq(seq![s[0]], plain) == (if plain {
            s[0].plain_seq()
        } else {
            s[0].stylized_seq()
        }));
        assert(config_seq(seq![s[1]], plain) == (if plain {
            s[1].plain_seq()
        } else {
            s[1].stylized_seq()
        }));
        assert(config_seq(s, plain) == config_seq(s.drop_last(), plain) + seq![' '] + (if plain {
            s.last().plain_seq()
        } else {
            s.last().stylized_seq()
        }));
        assert(config_seq(s, plain) =~= head + seq![' '] + config_seq(s.drop_first(), plain));
    } else {
        let dl = s.drop_last();
        lemma_config_seq_left(dl, plain);
        assert(s.drop_first().drop_last() =~= dl.drop_first());
        assert(s.drop_first().last() == s.last());
        assert(config_seq(s.drop_first(), plain) == config_seq(dl.drop_first(), plain) + seq![' ']
            + (if plain {
            s.last().plain_seq()
        } else {
            s.last().stylized_seq()
        }));
        assert(config_seq(s, plain) == config_seq(dl, plain) + seq![' '] + (if plain {
            s.last().plain_seq()
        } else {
            s.last().stylized_seq()
        }));
        assert(config_seq(s, plain) =~= head + seq![' '] + config_seq(s.drop_first(), plain));
    }
}

/// Law: rendering a configuration of suborbitals in plain form and parsing
/// the text back yields exactly the original suborbitals, in order (for at
/// least one suborbital, each with a single-digit principal quantum number
/// and a renderable block — all the parser can ever produce).
pub proof fn lemma_format_parse_round_trip(subs: Seq<Suborbital>)
    requires
        subs.len() >= 1,
        forall|i: int|
            0 <= i < subs.len() ==> 1 <= (#[trigger] subs[i]).0 <= 9 && subs[i].1 <= 3,
    ensures
        ({
            let toks = split_spaces(config_seq(subs, true));
            all_tokens_ok(toks) && parsed_suborbitals(toks) == subs
        }),
    decreases subs.len(),
{
    let text = config_seq(subs, true);
    let toks = split_spaces(text);
    let head = subs[0].plain_seq();
    lemma_plain_seq_token(subs[0]);
    if subs.len() == 1 {
        assert(text == head);
        lemma_split_spaces_first(text, text.len() as int);
        assert(toks =~~= seq![head]);
        assert(parsed_suborbitals(toks) =~= subs);
    } else {
        lemma_config_seq_left(subs, true);
        let rest = config_seq(subs.drop_first(), true);
        assert(text == head + seq![' '] + rest);
        assert(forall|k: int| 0 <= k < head.len() ==> text[k] == head[k]);
        assert(text[head.len() as int] == ' ');
        lemma_split_spaces_first(text, head.len() as int);
        assert(text.subrange(0, head.len() as int) =~= head);
        assert(text.subrange(head.len() as int + 1, text.len() as int) =~= rest);
        assert(toks =~~= seq![head] + split_spaces(rest));
        lemma_format_parse_round_trip(subs.drop_first());
        let rtoks = split_spaces(rest);
        assert(parsed_suborbitals(rtoks) == subs.drop_first());
        assert forall|i: int| 0 <= i < toks.len() implies token_ok(#[trigger] toks[i]) by {
            if i > 0 {
                assert(toks[i] == rtoks[i - 1]);
                assert(token_ok(rtoks[i - 1]));
            }
        }
        assert forall|i: int|
            0 <= i < toks.len() implies #[trigger] parsed_suborbitals(toks)[i] == subs[i] by {
            if i > 0 {
                assert(toks[i] == rtoks[i - 1]);
                assert(parsed_suborbitals(rtoks)[i - 1] == subs.drop_first()[i - 1]);
            }
        }
        assert(parsed_suborbitals(toks) =~= subs);
    }
}

/// The electron count of an acceptable token lies within the stored width.
proof fn lemma_token_count_bounds(t: Seq<char>)
    requires
        token_ok(t),
    ensures
        0 <= token_count(t) <= 255,
{
    crate::text::lemma_digits_val_nonneg(t.subrange(2, t.len() as int));
}

/// Renders a number with Unicode superscript digits, suppressing leading
/// zero digits: 6 gives "⁶" (not "⁰⁰⁶"), 10 gives "¹⁰".
#[must_use]
pub fn to_superscript(n: u8) -> (r: String)
    ensures
        r@ == sup_digits(n as int),
{
    let mut s = String::new();
    push_sup(&mut s, n);
    proof {
        assert(s@ =~= sup_digits(n as int));
    }
    s
}

} // verus!
