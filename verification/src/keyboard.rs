//! Text assembly for the keyboard modes: turning decoded symbols (Morse
//! elements, varicode bits, Baudot codes) into characters and words.
//!
//! The signal processing that produces the symbols lives outside; these
//! readers only hold the symbol and text state, and never invent a character:
//! an unknown symbol is dropped.

use vstd::prelude::*;
use vstd::string::*;
use crate::modes::{
    baudot, baudot_table, lemma_varicode_roundtrip, lemma_varicode_self_delimiting, morse_table,
    morse_to_char, self_delimiting, varicode_of, varicode_table,
};
use crate::text::{chars_of, is_ws, string_of, trim, trim_chars};

verus! {

// ---- words ----

/// The text of a pending word: `None` when it is only whitespace.
pub open spec fn word_text(word: Seq<char>) -> Option<Seq<char>> {
    if trim(word).len() == 0 { None } else { Some(trim(word)) }
}

/// Take the pending word: its text without surrounding whitespace, or `None`
/// when there is nothing but whitespace. The word is cleared either way.
pub fn take_word(word: &mut String) -> (r: Option<String>)
    ensures
        final(word)@ == Seq::<char>::empty(),
        r matches Some(t) ==> word_text(old(word)@) == Some(t@),
        r is None <==> word_text(old(word)@) is None,
{
    let v = chars_of(word.as_str());
    let t = trim_chars(&v);
    *word = String::new();
    if t.len() == 0 {
        None
    } else {
        Some(string_of(&t))
    }
}

/// Whether a keyboard-mode word is due for emission: eight bytes or more, or
/// ending in a space.
pub fn word_ready(word: &str) -> (r: bool)
    ensures
        r == (word.spec_bytes().len() as usize >= 8 || (word@.len() > 0 && word@.last() == ' ')),
{
    if word.len() >= 8 {
        return true;
    }
    let v = chars_of(word);
    v.len() > 0 && v[v.len() - 1] == ' '
}

// ---- PSK31 varicode ----

/// `b` without its leading '0' bits (the separator between characters, or idle).
pub open spec fn strip_zeros(b: Seq<char>) -> Seq<char>
    decreases b.len(),
{
    if b.len() > 0 && b[0] == '0' {
        strip_zeros(b.drop_first())
    } else {
        b
    }
}

/// The first position at or after `i` where two '0' bits follow each other,
/// or -1 if there is none.
pub open spec fn first_double_zero(b: Seq<char>, i: int) -> int
    decreases b.len() - i,
{
    if i < 0 || i + 1 >= b.len() {
        -1
    } else if b[i] == '0' && b[i + 1] == '0' {
        i
    } else {
        first_double_zero(b, i + 1)
    }
}

pub proof fn lemma_strip_zeros(b: Seq<char>)
    ensures
        strip_zeros(b).len() <= b.len(),
        strip_zeros(b).len() > 0 ==> strip_zeros(b)[0] != '0',
        strip_zeros(b) == b.subrange(b.len() - strip_zeros(b).len(), b.len() as int),
    decreases b.len(),
{
    if b.len() > 0 && b[0] == '0' {
        lemma_strip_zeros(b.drop_first());
        let t = strip_zeros(b.drop_first());
        assert(b.drop_first().subrange(b.drop_first().len() - t.len(), b.drop_first().len() as int)
            == b.subrange(b.len() - t.len(), b.len() as int));
    } else {
        assert(b.subrange(0, b.len() as int) == b);
    }
}

pub proof fn lemma_first_double_zero(b: Seq<char>, i: int)
    requires
        i >= 0,
    ensures
        first_double_zero(b, i) == -1 || (i <= first_double_zero(b, i) && first_double_zero(b, i) + 1
            < b.len() && b[first_double_zero(b, i)] == '0'),
    decreases b.len() - i,
{
    if i + 1 < b.len() && !(b[i] == '0' && b[i + 1] == '0') {
        lemma_first_double_zero(b, i + 1);
    }
}

/// The character of a varicode symbol, as a sequence of zero or one chars.
pub open spec fn symbol_chars(bits: Seq<char>) -> Seq<char> {
    match varicode_table(bits) {
        Some(c) => seq![c],
        None => Seq::empty(),
    }
}

/// Scanning the bit stream: skip leading zeros, and while a "00" follows a
/// symbol, decode the symbol and continue from the zeros. Returns the bits
/// left over (a symbol not yet terminated) and the characters decoded.
pub open spec fn varicode_scan(b: Seq<char>) -> (Seq<char>, Seq<char>)
    decreases b.len(),
{
    let t = strip_zeros(b);
    let i = first_double_zero(t, 0);
    if i < 0 {
        (t, Seq::empty())
    } else {
        proof {
            lemma_strip_zeros(b);
            lemma_first_double_zero(t, 0);
        }
        let r = varicode_scan(t.subrange(i, t.len() as int));
        (r.0, symbol_chars(t.subrange(0, i)) + r.1)
    }
}

/// The varicode transmission of a text: each character's pattern followed by
/// the "00" separator.
pub open spec fn varicode_encode(cs: Seq<char>) -> Seq<char>
    decreases cs.len(),
{
    if cs.len() == 0 {
        Seq::empty()
    } else {
        varicode_of(cs[0]).unwrap() + seq!['0', '0'] + varicode_encode(cs.drop_first())
    }
}

proof fn lemma_first_double_zero_after_code(b: Seq<char>, rest: Seq<char>, i: int)
    requires
        self_delimiting(b),
        0 <= i < b.len(),
    ensures
        first_double_zero(b + seq!['0', '0'] + rest, i) == b.len(),
    decreases b.len() - i,
{
    let e = b + seq!['0', '0'] + rest;
    assert(e[i] == b[i]);
    if i == b.len() - 1 {
        assert(e[i] == '1');
        assert(e[i + 1] == '0' && e[i + 2] == '0');
        assert(first_double_zero(e, i + 1) == i + 1);
    } else {
        assert(e[i + 1] == b[i + 1]);
        assert(!(b[i] == '0' && b[i + 1] == '0'));
        lemma_first_double_zero_after_code(b, rest, i + 1);
    }
}

proof fn lemma_scan_by_stripped(x: Seq<char>, y: Seq<char>)
    requires
        strip_zeros(x) == strip_zeros(y),
    ensures
        varicode_scan(x) == varicode_scan(y),
{
}

/// Framing law of PSK31 varicode: scanning the transmission of a text whose
/// characters are all in the table gives back the text, with no bits left
/// pending.
pub proof fn lemma_varicode_framing(cs: Seq<char>)
    requires
        forall|i: int| 0 <= i < cs.len() ==> (#[trigger] varicode_of(cs[i])) is Some,
    ensures
        varicode_scan(varicode_encode(cs)) == (Seq::<char>::empty(), cs),
    decreases cs.len(),
{
    if cs.len() == 0 {
        assert(strip_zeros(Seq::<char>::empty()) == Seq::<char>::empty());
    } else {
        let c = cs[0];
        let tail = cs.drop_first();
        assert forall|i: int| 0 <= i < tail.len() implies (#[trigger] varicode_of(tail[i])) is Some by {
            assert(tail[i] == cs[i + 1]);
        }
        lemma_varicode_framing(tail);
        let b = varicode_of(c).unwrap();
        lemma_varicode_self_delimiting(c);
        lemma_varicode_roundtrip(c);
        let rest = varicode_encode(tail);
        let e = b + seq!['0', '0'] + rest;
        assert(varicode_encode(cs) == e);
        assert(e[0] == '1');
        assert(strip_zeros(e) == e);
        lemma_first_double_zero_after_code(b, rest, 0);
        assert(e.subrange(0, b.len() as int) == b);
        let z = e.subrange(b.len() as int, e.len() as int);
        assert(z == seq!['0', '0'] + rest);
        assert(z.drop_first().drop_first() == rest);
        // `rest` starts with a '1' or is empty, so it is its own stripped form.
        if tail.len() > 0 {
            lemma_varicode_self_delimiting(tail[0]);
            assert(rest[0] == varicode_of(tail[0]).unwrap()[0]);
        }
        assert(strip_zeros(rest) == rest);
        let z1 = z.drop_first();
        assert(z[0] == '0' && z1[0] == '0');
        assert(strip_zeros(z) == strip_zeros(z1));
        assert(strip_zeros(z1) == strip_zeros(z1.drop_first()));
        assert(strip_zeros(z) == strip_zeros(rest));
        lemma_scan_by_stripped(z, rest);
        assert(symbol_chars(b) == seq![c]);
        assert(seq![c] + tail == cs);
    }
}

/// The bits kept after a scan: all of them, unless more than 128 bits have
/// piled up without a symbol boundary (a stream that never synced).
pub open spec fn bounded_bits(b: Seq<char>) -> Seq<char> {
    if b.len() > 128 { Seq::empty() } else { b }
}

/// The varicode reader of the PSK31 decoder.
pub struct VaricodeReader {
    bits: Vec<char>,
    word: String,
}

pub struct ReaderState {
    pub pending: Seq<char>,
    pub word: Seq<char>,
}

impl View for VaricodeReader {
    type V = ReaderState;

    closed spec fn view(&self) -> ReaderState {
        ReaderState { pending: self.bits@, word: self.word@ }
    }
}

impl VaricodeReader {
    pub fn new() -> (r: Self)
        ensures
            r@.pending == Seq::<char>::empty(),
            r@.word == Seq::<char>::empty(),
    {
        VaricodeReader { bits: Vec::new(), word: String::new() }
    }

    /// Feed one demodulated bit ('1' for no phase reversal, '0' for a reversal),
    /// then decode every symbol that the stream now terminates.
    pub fn push_bit(&mut self, one: bool)
        ensures
            ({
                let b = old(self)@.pending.push(if one { '1' } else { '0' });
                let r = varicode_scan(b);
                &&& final(self)@.pending == bounded_bits(r.0)
                &&& final(self)@.word == old(self)@.word + r.1
            }),
    {
        self.bits.push(if one { '1' } else { '0' });
        let ghost b0 = self.bits@;
        let mut cur: Vec<char> = Vec::new();
        std::mem::swap(&mut cur, &mut self.bits);
        loop
            invariant
                self.bits@ == Seq::<char>::empty(),
                varicode_scan(b0) == ({
                    let r = varicode_scan(cur@);
                    (r.0, self.word@.subrange(old(self)@.word.len() as int, self.word@.len() as int) + r.1)
                }),
                self.word@.subrange(0, old(self)@.word.len() as int) == old(self)@.word,
                self.word@.len() >= old(self)@.word.len(),
            ensures
                varicode_scan(b0) == (cur@, self.word@.subrange(old(self)@.word.len() as int, self.word@.len() as int)),
                self.word@.subrange(0, old(self)@.word.len() as int) == old(self)@.word,
                self.word@.len() >= old(self)@.word.len(),
            decreases cur@.len(),
        {
            // Skip the leading zeros.
            let n = cur.len();
            let mut k: usize = 0;
            assert(cur@.subrange(0, n as int) == cur@);
            while k < n && cur[k] == '0'
                invariant
                    n == cur@.len(),
                    k <= n,
                    strip_zeros(cur@) == strip_zeros(cur@.subrange(k as int, n as int)),
                decreases n - k,
            {
                proof {
                    let t = cur@.subrange(k as int, n as int);
                    assert(t.drop_first() == cur@.subrange(k + 1, n as int));
                }
                k += 1;
            }
            let mut t: Vec<char> = Vec::new();
            let mut m: usize = k;
            while m < n
                invariant
                    k <= m <= n,
                    n == cur@.len(),
                    t@ == cur@.subrange(k as int, m as int),
                decreases n - m,
            {
                t.push(cur[m]);
                m += 1;
                assert(cur@.subrange(k as int, m as int) == cur@.subrange(k as int, m - 1).push(cur@[m - 1]));
            }
            assert(strip_zeros(t@) == t@);
            assert(strip_zeros(cur@) == t@);
            // Find the first "00".
            let tn = t.len();
            let mut i: usize = 0;
            while i < tn && i + 1 < tn && !(t[i] == '0' && t[i + 1] == '0')
                invariant
                    tn == t@.len(),
                    i <= tn,
                    first_double_zero(t@, 0) == first_double_zero(t@, i as int),
                decreases tn - i,
            {
                i += 1;
            }
            if i >= tn || i + 1 >= tn {
                assert(first_double_zero(t@, i as int) == -1);
                let ghost sofar = self.word@.subrange(old(self)@.word.len() as int, self.word@.len() as int);
                assert(sofar + Seq::<char>::empty() == sofar);
                cur = t;
                break;
            }
            proof {
                lemma_strip_zeros(cur@);
            }
            // Decode the symbol before the zeros, keep the zeros.
            let mut sym: Vec<char> = Vec::new();
            let mut p: usize = 0;
            while p < i
                invariant
                    p <= i,
                    i + 1 < tn,
                    tn == t@.len(),
                    sym@ == t@.subrange(0, p as int),
                decreases i - p,
            {
                sym.push(t[p]);
                p += 1;
                assert(t@.subrange(0, p as int) == t@.subrange(0, p - 1).push(t@[p - 1]));
            }
            let mut rest: Vec<char> = Vec::new();
            let mut q: usize = i;
            while q < tn
                invariant
                    i <= q <= tn,
                    tn == t@.len(),
                    rest@ == t@.subrange(i as int, q as int),
                decreases tn - q,
            {
                rest.push(t[q]);
                q += 1;
                assert(t@.subrange(i as int, q as int) == t@.subrange(i as int, q - 1).push(t@[q - 1]));
            }
            let ghost w_before = self.word@;
            let decoded = crate::modes::varicode_char_of(&sym);
            match decoded {
                Some(c) => {
                    self.word.push(c);
                },
                None => {},
            }
            proof {
                let lo = old(self)@.word.len() as int;
                let sofar = w_before.subrange(lo, w_before.len() as int);
                let now = self.word@.subrange(lo, self.word@.len() as int);
                assert(now == sofar + symbol_chars(sym@));
                assert(self.word@.subrange(0, lo) == w_before.subrange(0, lo));
                assert(varicode_scan(cur@).1 == symbol_chars(sym@) + varicode_scan(rest@).1);
                assert(varicode_scan(cur@).0 == varicode_scan(rest@).0);
                assert(sofar + (symbol_chars(sym@) + varicode_scan(rest@).1) == now + varicode_scan(rest@).1);
                assert(rest@.len() < cur@.len());
            }
            cur = rest;
        }
        if cur.len() > 128 {
            cur = Vec::new();
        }
        self.bits = cur;
        proof {
            let lo = old(self)@.word.len() as int;
            assert(self.word@ == old(self)@.word + self.word@.subrange(lo, self.word@.len() as int));
        }
    }

    /// Whether the pending word is due for emission.
    pub fn word_ready(&self) -> (r: bool)
        ensures
            r == (encoded_len(self@.word) as usize >= 8 || (self@.word.len() > 0 && self@.word.last() == ' ')),
    {
        word_ready(self.word.as_str())
    }

    /// Take the pending word (see `take_word`).
    pub fn take_word(&mut self) -> (r: Option<String>)
        ensures
            final(self)@.pending == old(self)@.pending,
            final(self)@.word == Seq::<char>::empty(),
            r matches Some(t) ==> word_text(old(self)@.word) == Some(t@),
            r is None <==> word_text(old(self)@.word) is None,
    {
        take_word(&mut self.word)
    }
}

/// The UTF-8 length of a text.
pub open spec fn encoded_len(s: Seq<char>) -> nat {
    vstd::utf8::encode_utf8(s).len()
}

// ---- RTTY (ITA2 / Baudot) ----

/// The shift codes of ITA2.
pub const BAUDOT_LTRS_SHIFT: u8 = 31;
pub const BAUDOT_FIGS_SHIFT: u8 = 27;

pub struct BaudotState {
    pub figs: bool,
    pub word: Seq<char>,
}

/// One received 5-bit code: a shift code switches the shift, any other code
/// appends its character in the current shift, if it has one.
pub open spec fn baudot_step(s: BaudotState, code: u8) -> BaudotState {
    if code == BAUDOT_LTRS_SHIFT {
        BaudotState { figs: false, ..s }
    } else if code == BAUDOT_FIGS_SHIFT {
        BaudotState { figs: true, ..s }
    } else {
        match baudot_table(code as int, s.figs) {
            Some(c) => BaudotState { word: s.word.push(c), ..s },
            None => s,
        }
    }
}

/// The text side of the RTTY decoder: the shift state and the pending word.
pub struct BaudotReader {
    figs: bool,
    word: String,
}

impl View for BaudotReader {
    type V = BaudotState;

    closed spec fn view(&self) -> BaudotState {
        BaudotState { figs: self.figs, word: self.word@ }
    }
}

impl BaudotReader {
    /// Letters shift, no pending text.
    pub fn new() -> (r: Self)
        ensures
            !r@.figs,
            r@.word == Seq::<char>::empty(),
    {
        BaudotReader { figs: false, word: String::new() }
    }

    /// Apply one received 5-bit code.
    pub fn decode(&mut self, code: u8)
        requires
            code < 32,
        ensures
            final(self)@ == baudot_step(old(self)@, code),
    {
        if code == BAUDOT_LTRS_SHIFT {
            self.figs = false;
        } else if code == BAUDOT_FIGS_SHIFT {
            self.figs = true;
        } else {
            match baudot(code, self.figs) {
                Some(c) => self.word.push(c),
                None => {},
            }
        }
    }

    /// Whether the pending word is due for emission.
    pub fn word_ready(&self) -> (r: bool)
        ensures
            r == (encoded_len(self@.word) as usize >= 8 || (self@.word.len() > 0 && self@.word.last() == ' ')),
    {
        word_ready(self.word.as_str())
    }

    /// Take the pending word (see `take_word`); the shift is kept.
    pub fn take_word(&mut self) -> (r: Option<String>)
        ensures
            final(self)@.figs == old(self)@.figs,
            final(self)@.word == Seq::<char>::empty(),
            r matches Some(t) ==> word_text(old(self)@.word) == Some(t@),
            r is None <==> word_text(old(self)@.word) is None,
    {
        take_word(&mut self.word)
    }
}

// ---- CW (Morse) ----

pub struct MorseState {
    /// Dots and dashes of the character being keyed.
    pub symbol: Seq<char>,
    pub word: Seq<char>,
}

/// Close the pending character: its letter is appended if the code is known,
/// and the code is cleared.
pub open spec fn morse_flush(s: MorseState) -> MorseState {
    if s.symbol.len() == 0 {
        s
    } else {
        match morse_table(s.symbol) {
            Some(c) => MorseState { symbol: Seq::empty(), word: s.word.push(c) },
            None => MorseState { symbol: Seq::empty(), ..s },
        }
    }
}

/// A gap between characters closes the pending character; a word gap also
/// adds one space, unless the word is empty or already ends in one.
pub open spec fn morse_gap(s: MorseState, word_gap: bool) -> MorseState {
    let f = morse_flush(s);
    if word_gap && f.word.len() > 0 && f.word.last() != ' ' {
        MorseState { word: f.word.push(' '), ..f }
    } else {
        f
    }
}

/// The text side of the CW decoder.
pub struct MorseReader {
    symbol: String,
    word: String,
}

impl View for MorseReader {
    type V = MorseState;

    closed spec fn view(&self) -> MorseState {
        MorseState { symbol: self.symbol@, word: self.word@ }
    }
}

impl MorseReader {
    pub fn new() -> (r: Self)
        ensures
            r@.symbol == Seq::<char>::empty(),
            r@.word == Seq::<char>::empty(),
    {
        MorseReader { symbol: String::new(), word: String::new() }
    }

    /// A finished mark: a dash or a dot.
    pub fn push_element(&mut self, dash: bool)
        ensures
            final(self)@.symbol == old(self)@.symbol.push(if dash { '-' } else { '.' }),
            final(self)@.word == old(self)@.word,
    {
        self.symbol.push(if dash { '-' } else { '.' });
    }

    fn flush_symbol(&mut self)
        ensures
            final(self)@ == morse_flush(old(self)@),
    {
        let v = chars_of(self.symbol.as_str());
        if v.len() == 0 {
            return;
        }
        match morse_to_char(self.symbol.as_str()) {
            Some(c) => self.word.push(c),
            None => {},
        }
        self.symbol = String::new();
    }

    /// A finished space that separates characters (`word_gap` when it is long
    /// enough to separate words).
    pub fn gap(&mut self, word_gap: bool)
        ensures
            final(self)@ == morse_gap(old(self)@, word_gap),
    {
        self.flush_symbol();
        if word_gap {
            let w = chars_of(self.word.as_str());
            if w.len() > 0 && w[w.len() - 1] != ' ' {
                self.word.push(' ');
            }
        }
    }

    /// Close the pending character, then take the pending word.
    pub fn take_word(&mut self) -> (r: Option<String>)
        ensures
            final(self)@.symbol == Seq::<char>::empty(),
            final(self)@.word == Seq::<char>::empty(),
            r matches Some(t) ==> word_text(morse_flush(old(self)@).word) == Some(t@),
            r is None <==> word_text(morse_flush(old(self)@).word) is None,
    {
        self.flush_symbol();
        proof {
            if old(self)@.symbol.len() == 0 {
                assert(self@.symbol == Seq::<char>::empty());
            }
        }
        take_word(&mut self.word)
    }
}

} // verus!
