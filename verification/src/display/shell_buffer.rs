//! Fixed-capacity shell text and scrollback.
use vstd::prelude::*;
use vstd::string::StringSliceAdditionalSpecFns;
use crate::strings::{ascii_bytes, utf8_str};

verus! {

pub const MAX_LINE_BYTES: usize = 160;
pub const MAX_SCROLLBACK_LINES: usize = 96;

#[derive(Clone, Copy, Debug, PartialEq, Eq, Structural)]
pub enum LineKind {
    Prompt,
    Output,
    Error,
    Status,
}

/// At most `MAX_LINE_BYTES` ASCII bytes.
#[derive(Clone, Copy, Debug, PartialEq, Eq)]
pub struct FixedText {
    bytes: [u8; 160],
    len: usize,
}

/// A byte as stored: non-ASCII bytes become `?`.
pub open spec fn stored_byte(b: u8) -> u8 {
    if b < 128 {
        b
    } else {
        63u8
    }
}

/// The bytes as stored.
pub open spec fn stored(bytes: Seq<u8>) -> Seq<u8> {
    bytes.map_values(|b: u8| stored_byte(b))
}

/// `bytes` appended to `text`, cut at the capacity.
pub open spec fn append_capped(text: Seq<u8>, bytes: Seq<u8>) -> Seq<u8> {
    let room = MAX_LINE_BYTES - text.len();
    if bytes.len() <= room {
        text + bytes
    } else {
        text + bytes.subrange(0, room)
    }
}

/// Decimal digits of `v` without leading zeros.
pub open spec fn decimal(v: nat) -> Seq<u8>
    decreases v,
{
    if v < 10 {
        seq![(48 + v) as u8]
    } else {
        decimal(v / 10).push((48 + v % 10) as u8)
    }
}

pub open spec fn hex_digit(d: nat) -> u8 {
    if d < 10 {
        (48 + d) as u8
    } else {
        (87 + d) as u8
    }
}

/// Lower-case hexadecimal digits of `v` without leading zeros.
pub open spec fn hexadecimal(v: nat) -> Seq<u8>
    decreases v,
{
    if v < 16 {
        seq![hex_digit(v)]
    } else {
        hexadecimal(v / 16).push(hex_digit(v % 16))
    }
}

pub open spec fn pow(base: nat, k: nat) -> nat
    decreases k,
{
    if k == 0 {
        1
    } else {
        base * pow(base, (k - 1) as nat)
    }
}

proof fn lemma_decimal_len(v: nat, k: nat)
    requires
        v < pow(10, k),
        k >= 1,
    ensures
        decimal(v).len() <= k,
    decreases v,
{
    reveal_with_fuel(pow, 2);
    if v >= 10 {
        assert(k >= 2);
        assert(v / 10 < pow(10, (k - 1) as nat)) by (nonlinear_arith)
            requires
                v < 10 * pow(10, (k - 1) as nat),
        ;
        lemma_decimal_len(v / 10, (k - 1) as nat);
    }
}

/// A 16-bit value has at most five decimal digits, all ASCII.
pub proof fn lemma_decimal_short(v: nat)
    requires
        v < 65536,
    ensures
        decimal(v).len() <= 5,
        stored(decimal(v)) == decimal(v),
{
    reveal_with_fuel(pow, 6);
    lemma_decimal_len(v, 5);
    lemma_decimal_ascii(v);
    assert(stored(decimal(v)) =~= decimal(v));
}

proof fn lemma_hexadecimal_len(v: nat, k: nat)
    requires
        v < pow(16, k),
        k >= 1,
    ensures
        hexadecimal(v).len() <= k,
    decreases v,
{
    reveal_with_fuel(pow, 2);
    if v >= 16 {
        assert(k >= 2);
        assert(v / 16 < pow(16, (k - 1) as nat)) by (nonlinear_arith)
            requires
                v < 16 * pow(16, (k - 1) as nat),
        ;
        lemma_hexadecimal_len(v / 16, (k - 1) as nat);
    }
}

proof fn lemma_append_step(text: Seq<u8>, done: Seq<u8>, b: u8)
    requires
        text.len() <= MAX_LINE_BYTES,
    ensures
        append_capped(append_capped(text, done), seq![b]) == append_capped(text, done.push(b)),
{
    assert(append_capped(append_capped(text, done), seq![b]) =~= append_capped(text, done.push(b)));
}

proof fn lemma_decimal_ascii(v: nat)
    ensures
        ascii_bytes(decimal(v)),
    decreases v,
{
    if v >= 10 {
        lemma_decimal_ascii(v / 10);
    }
}

proof fn lemma_hexadecimal_ascii(v: nat)
    ensures
        ascii_bytes(hexadecimal(v)),
    decreases v,
{
    if v >= 16 {
        lemma_hexadecimal_ascii(v / 16);
    }
}

proof fn lemma_append_ascii(text: Seq<u8>, bytes: Seq<u8>)
    requires
        ascii_bytes(text),
        ascii_bytes(bytes),
        text.len() <= MAX_LINE_BYTES,
    ensures
        ascii_bytes(append_capped(text, bytes)),
        append_capped(text, bytes).len() <= MAX_LINE_BYTES,
{
    let r = append_capped(text, bytes);
    assert forall|i: int| 0 <= i < r.len() implies #[trigger] r[i] < 128 by {
        if i >= text.len() {
            assert(r[i] == bytes[i - text.len()]);
        }
    }
}

impl FixedText {
    pub closed spec fn view(&self) -> Seq<u8> {
        self.bytes@.subrange(0, self.len as int)
    }

    /// The length stays within capacity and the text is ASCII.
    pub closed spec fn wf(&self) -> bool {
        self.len <= MAX_LINE_BYTES && ascii_bytes(self@)
    }

    pub fn empty() -> (r: Self)
        ensures
            r.wf(),
            r@ == Seq::<u8>::empty(),
    {
        let r = Self { bytes: [0u8; 160], len: 0 };
        assert(r@ =~= Seq::<u8>::empty());
        r
    }

    pub fn from_str(text: &str) -> (r: Self)
        ensures
            r.wf(),
            r@ == append_capped(Seq::empty(), stored(text.spec_bytes())),
    {
        let mut fixed = Self::empty();
        fixed.push_str(text);
        fixed
    }

    /// Appends `text` byte by byte until the line is full; non-ASCII bytes
    /// are stored as `?`.
    pub fn push_str(&mut self, text: &str)
        requires
            old(self).wf(),
        ensures
            final(self).wf(),
            final(self)@ == append_capped(
                old(self)@,
                stored(text.spec_bytes()),
            ),
    {
        self.push_bytes(text.as_bytes());
    }

    /// Appends `bytes` until the line is full; non-ASCII bytes are stored
    /// as `?`.
    pub fn push_bytes(&mut self, bytes: &[u8])
        requires
            old(self).wf(),
        ensures
            final(self).wf(),
            final(self)@ == append_capped(old(self)@, stored(bytes@)),
    {
        let ghost mapped = stored(bytes@);
        let ghost start = self@;
        let mut i: usize = 0;
        while i < bytes.len()
            invariant
                self.wf(),
                self.bytes@.len() == MAX_LINE_BYTES,
                i <= bytes@.len(),
                mapped == stored(bytes@),
                start.len() <= MAX_LINE_BYTES,
                start == old(self)@,
                self@ == append_capped(start, mapped.subrange(0, i as int)),
            decreases bytes@.len() - i,
        {
            if self.len >= MAX_LINE_BYTES {
                assert(append_capped(start, mapped.subrange(0, i as int)).len() == MAX_LINE_BYTES);
                assert(append_capped(start, mapped) =~= append_capped(
                    start,
                    mapped.subrange(0, i as int),
                ));
                return;
            }
            let byte = bytes[i];
            let stored = if byte < 128 { byte } else { 63u8 };
            let ghost before = self@;
            self.bytes[self.len] = stored;
            self.len += 1;
            i += 1;
            assert(self@ =~= before.push(stored));
            assert(mapped.subrange(0, i as int) =~= mapped.subrange(0, i - 1).push(stored));
            assert(append_capped(start, mapped.subrange(0, i as int)) =~= before.push(stored));
        }
        assert(mapped.subrange(0, bytes@.len() as int) =~= mapped);
    }

    /// Appends the decimal form of `value`, truncated at capacity.
    pub fn push_u64(&mut self, value: u64)
        requires
            old(self).wf(),
        ensures
            final(self).wf(),
            final(self)@ == append_capped(old(self)@, decimal(value as nat)),
    {
        let mut buf = [0u8; 20];
        let mut index: usize = 20;
        let mut rest = value;
        proof {
            reveal_with_fuel(pow, 21);
            assert(pow(10, 20) == 100_000_000_000_000_000_000nat);
            lemma_decimal_len(value as nat, 20);
        }
        loop
            invariant
                buf@.len() == 20,
                index <= 20,
                rest > 0 ==> decimal(value as nat) == decimal(rest as nat) + buf@.subrange(
                    index as int,
                    20,
                ),
                rest == 0 && value > 0 ==> decimal(value as nat) == buf@.subrange(index as int, 20),
                decimal(value as nat).len() <= 20,
                rest > 0 ==> index >= decimal(rest as nat).len() >= 1,
                value == 0 ==> rest == 0 && index == 20,
                value > 0 ==> (rest > 0 || index < 20),
            ensures
                rest == 0,
                value > 0 ==> decimal(value as nat) == buf@.subrange(index as int, 20),
            decreases rest,
        {
            if rest == 0 {
                break;
            }
            let ghost old_buf = buf@.subrange(index as int, 20);
            let d = (rest % 10) as u8;
            index -= 1;
            buf[index] = 48u8 + d;
            assert(buf@.subrange(index as int, 20) =~= seq![(48 + d) as u8] + old_buf);
            rest = rest / 10;
            proof {
                if rest > 0 {
                    assert(decimal(rest as nat) + seq![(48 + d) as u8] =~= decimal(rest as nat).push(
                        (48 + d) as u8,
                    ));
                }
            }
        }
        if value == 0 {
            proof {
                lemma_decimal_ascii(0);
            }
            self.push_byte(48u8);
            return;
        }
        proof {
            lemma_decimal_ascii(value as nat);
        }
        let mut i = index;
        while i < 20
            invariant
                index <= i <= 20,
                buf@.len() == 20,
                self.wf(),
                old(self).wf(),
                ascii_bytes(buf@.subrange(index as int, 20)),
                self@ == append_capped(old(self)@, buf@.subrange(index as int, i as int)),
            decreases 20 - i,
        {
            assert(buf@.subrange(index as int, 20)[i - index] == buf@[i as int]);
            let ghost before = self@;
            self.push_byte(buf[i]);
            proof {
                lemma_append_step(old(self)@, buf@.subrange(index as int, i as int), buf@[i as int]);
                assert(buf@.subrange(index as int, i as int).push(buf@[i as int]) =~= buf@.subrange(
                    index as int,
                    i + 1,
                ));
            }
            i += 1;
        }
    }

    /// Appends the lower-case hexadecimal form of `value`, truncated at capacity.
    pub fn push_hex(&mut self, value: u64)
        requires
            old(self).wf(),
        ensures
            final(self).wf(),
            final(self)@ == append_capped(old(self)@, hexadecimal(value as nat)),
    {
        let digits: [u8; 16] = [
            48u8, 49u8, 50u8, 51u8, 52u8, 53u8, 54u8, 55u8, 56u8, 57u8, 97u8, 98u8, 99u8, 100u8,
            101u8, 102u8,
        ];
        assert(forall|d: int| 0 <= d < 16 ==> #[trigger] digits@[d] == hex_digit(d as nat));
        let mut buf = [0u8; 16];
        let mut index: usize = 16;
        let mut rest = value;
        proof {
            reveal_with_fuel(pow, 17);
            assert(pow(16, 16) == 0x1_0000_0000_0000_0000nat);
            lemma_hexadecimal_len(value as nat, 16);
        }
        loop
            invariant
                buf@.len() == 16,
                index <= 16,
                forall|d: int| 0 <= d < 16 ==> #[trigger] digits@[d] == hex_digit(d as nat),
                rest > 0 ==> hexadecimal(value as nat) == hexadecimal(rest as nat)
                    + buf@.subrange(index as int, 16),
                hexadecimal(value as nat).len() <= 16,
                rest > 0 ==> index >= hexadecimal(rest as nat).len() >= 1,
                value == 0 ==> rest == 0 && index == 16,
                value > 0 ==> (rest > 0 || hexadecimal(value as nat) == buf@.subrange(
                    index as int,
                    16,
                )),
            ensures
                rest == 0,
                value > 0 ==> hexadecimal(value as nat) == buf@.subrange(index as int, 16),
            decreases rest,
        {
            if rest == 0 {
                break;
            }
            let ghost old_buf = buf@.subrange(index as int, 16);
            let d = (rest % 16) as usize;
            index -= 1;
            buf[index] = digits[d];
            assert(buf@.subrange(index as int, 16) =~= seq![hex_digit(d as nat)] + old_buf);
            rest = rest / 16;
            proof {
                if rest > 0 {
                    assert(hexadecimal(rest as nat) + seq![hex_digit(d as nat)] =~= hexadecimal(
                        rest as nat,
                    ).push(hex_digit(d as nat)));
                }
            }
        }
        if value == 0 {
            self.push_byte(48u8);
            return;
        }
        proof {
            lemma_hexadecimal_ascii(value as nat);
        }
        let mut i = index;
        while i < 16
            invariant
                index <= i <= 16,
                buf@.len() == 16,
                self.wf(),
                old(self).wf(),
                ascii_bytes(buf@.subrange(index as int, 16)),
                self@ == append_capped(old(self)@, buf@.subrange(index as int, i as int)),
            decreases 16 - i,
        {
            assert(buf@.subrange(index as int, 16)[i - index] == buf@[i as int]);
            self.push_byte(buf[i]);
            proof {
                lemma_append_step(old(self)@, buf@.subrange(index as int, i as int), buf@[i as int]);
                assert(buf@.subrange(index as int, i as int).push(buf@[i as int]) =~= buf@.subrange(
                    index as int,
                    i + 1,
                ));
            }
            i += 1;
        }
    }

    /// The text as a string slice.
    pub fn as_str(&self) -> (r: &str)
        requires
            self.wf(),
        ensures
            r.spec_bytes() == self@,
    {
        match utf8_str(self.bytes.as_slice().split_at(self.len).0) {
            Some(text) => text,
            None => "",
        }
    }

    fn push_byte(&mut self, byte: u8)
        requires
            old(self).wf(),
            byte < 128,
        ensures
            final(self).wf(),
            final(self)@ == append_capped(old(self)@, seq![byte]),
    {
        if self.len < MAX_LINE_BYTES {
            let ghost before = self@;
            self.bytes[self.len] = byte;
            self.len += 1;
            assert(self@ =~= before.push(byte));
        } else {
            assert(append_capped(self@, seq![byte]) =~= self@);
        }
    }

    pub fn len(&self) -> (n: usize)
        requires
            self.wf(),
        ensures
            n == self@.len(),
    {
        self.len
    }

    /// Text that is well formed is ASCII and fits the capacity.
    pub proof fn lemma_wf_ascii(&self)
        requires
            self.wf(),
        ensures
            self@.len() <= MAX_LINE_BYTES,
            forall|i: int| 0 <= i < self@.len() ==> #[trigger] self@[i] < 128,
    {
    }

    pub fn is_empty(&self) -> (r: bool)
        requires
            self.wf(),
        ensures
            r == (self@.len() == 0),
    {
        self.len == 0
    }
}

} // verus!

verus! {

#[derive(Clone, Copy, Debug, PartialEq, Eq)]
pub struct ShellLine {
    pub kind: LineKind,
    pub text: FixedText,
}

impl ShellLine {
    pub fn empty() -> (r: Self)
        ensures
            r.kind == LineKind::Output,
            r.text.wf(),
            r.text@ == Seq::<u8>::empty(),
    {
        Self { kind: LineKind::Output, text: FixedText::empty() }
    }

    pub fn new(kind: LineKind, text: &str) -> (r: Self)
        ensures
            r.kind == kind,
            r.text.wf(),
            r.text@ == append_capped(Seq::empty(), stored(text.spec_bytes())),
    {
        Self { kind, text: FixedText::from_str(text) }
    }
}

/// Scrollback of at most `MAX_SCROLLBACK_LINES` lines, oldest first.
pub struct ShellBuffer {
    lines: [ShellLine; 96],
    len: usize,
}

impl ShellBuffer {
    pub closed spec fn view(&self) -> Seq<ShellLine> {
        self.lines@.subrange(0, self.len as int)
    }

    pub closed spec fn wf(&self) -> bool {
        self.len <= MAX_SCROLLBACK_LINES
    }

    pub fn new() -> (r: Self)
        ensures
            r.wf(),
            r@ == Seq::<ShellLine>::empty(),
    {
        let line = ShellLine::empty();
        let r = Self { lines: [line; 96], len: 0 };
        assert(r@ =~= Seq::<ShellLine>::empty());
        r
    }

    /// A well-formed scrollback holds at most its capacity.
    pub proof fn lemma_wf_len(&self)
        requires
            self.wf(),
        ensures
            self@.len() <= MAX_SCROLLBACK_LINES,
    {
    }

    pub fn clear(&mut self)
        ensures
            final(self).wf(),
            final(self)@ == Seq::<ShellLine>::empty(),
    {
        self.len = 0;
        assert(self@ =~= Seq::<ShellLine>::empty());
    }

    /// Appends `line`; a full buffer drops its oldest line first.
    pub fn push(&mut self, line: ShellLine)
        requires
            old(self).wf(),
        ensures
            final(self).wf(),
            old(self)@.len() < MAX_SCROLLBACK_LINES ==> final(self)@ == old(self)@.push(line),
            old(self)@.len() == MAX_SCROLLBACK_LINES ==> final(self)@ == old(self)@.drop_first().push(
                line,
            ),
    {
        if self.len < MAX_SCROLLBACK_LINES {
            self.lines[self.len] = line;
            self.len += 1;
            assert(self@ =~= old(self)@.push(line));
        } else {
            let mut index: usize = 1;
            while index < MAX_SCROLLBACK_LINES
                invariant
                    1 <= index <= MAX_SCROLLBACK_LINES,
                    self.len == MAX_SCROLLBACK_LINES,
                    self.lines@.len() == MAX_SCROLLBACK_LINES,
                    forall|j: int| 0 <= j < index - 1 ==> self.lines@[j] == old(self).lines@[j + 1],
                    forall|j: int| index <= j < MAX_SCROLLBACK_LINES ==> self.lines@[j] == old(
                        self,
                    ).lines@[j],
                decreases MAX_SCROLLBACK_LINES - index,
            {
                self.lines[index - 1] = self.lines[index];
                index += 1;
            }
            self.lines[MAX_SCROLLBACK_LINES - 1] = line;
            assert(self@ =~= old(self)@.drop_first().push(line));
        }
    }

    pub fn len(&self) -> (n: usize)
        requires
            self.wf(),
        ensures
            n == self@.len(),
    {
        self.len
    }

    pub fn is_empty(&self) -> (r: bool)
        requires
            self.wf(),
        ensures
            r == (self@.len() == 0),
    {
        self.len == 0
    }

    /// The line at `index`, oldest first.
    pub fn line(&self, index: usize) -> (r: Option<&ShellLine>)
        requires
            self.wf(),
        ensures
            index < self@.len() ==> r == Some(&self@[index as int]),
            index >= self@.len() ==> r is None,
    {
        if index < self.len {
            Some(&self.lines[index])
        } else {
            None
        }
    }

    /// The first line shown when only `max_lines` fit.
    pub fn visible_start(&self, max_lines: usize) -> (r: usize)
        requires
            self.wf(),
        ensures
            r == (if self@.len() > max_lines { self@.len() - max_lines } else { 0 }),
    {
        if self.len > max_lines {
            self.len - max_lines
        } else {
            0
        }
    }

    /// Screen rows needed for a line of `text_len` bytes in `columns`
    /// columns; an empty line still takes one row.
    pub fn wrap_count(text_len: usize, columns: usize) -> (r: usize)
        ensures
            columns == 0 ==> r == 0,
            columns > 0 ==> r == (if text_len > 1 { text_len as int } else { 1int } + columns - 1)
                / columns as int,
    {
        if columns == 0 {
            0
        } else {
            let n = if text_len > 1 { text_len } else { 1 };
            let q = n / columns;
            let rem = n % columns;
            proof {
                let (ni, ci, qi, ri) = (n as int, columns as int, q as int, rem as int);
                assert(ni == qi * ci + ri && 0 <= ri < ci) by (nonlinear_arith)
                    requires
                        ci > 0,
                        qi == ni / ci,
                        ri == ni % ci,
                ;
                if ri != 0 {
                    assert((ni + ci - 1) / ci == qi + 1 && qi < ni) by (nonlinear_arith)
                        requires
                            ni == qi * ci + ri,
                            0 < ri < ci,
                            ni >= 1,
                    ;
                } else {
                    assert((ni + ci - 1) / ci == qi) by (nonlinear_arith)
                        requires
                            ni == qi * ci,
                            ci > 0,
                    ;
                }
            }
            if rem != 0 {
                q + 1
            } else {
                q
            }
        }
    }
}

/// `bytes` without leading and trailing spaces.
pub open spec fn trim_spaces(bytes: Seq<u8>) -> Seq<u8>
    decreases bytes.len(),
{
    if bytes.len() > 0 && bytes[0] == 32 {
        trim_spaces(bytes.drop_first())
    } else if bytes.len() > 0 && bytes.last() == 32 {
        trim_spaces(bytes.drop_last())
    } else {
        bytes
    }
}

/// The bytes before the first space.
pub open spec fn first_word(bytes: Seq<u8>) -> Seq<u8>
    decreases bytes.len(),
{
    if bytes.len() == 0 || bytes[0] == 32 {
        Seq::empty()
    } else {
        seq![bytes[0]] + first_word(bytes.drop_first())
    }
}

/// The shell commands the console knows.
pub open spec fn known_commands() -> Seq<Seq<u8>> {
    seq![
        "help".spec_bytes(),
        "clear".spec_bytes(),
        "mem".spec_bytes(),
        "ls".spec_bytes(),
        "cat".spec_bytes(),
        "echo".spec_bytes(),
        "uname".spec_bytes(),
        "reboot".spec_bytes(),
        "shutdown".spec_bytes(),
        "about".spec_bytes(),
        "whoami".spec_bytes(),
        "ui".spec_bytes(),
    ]
}

/// How a typed command line is echoed: blank is status, a known command name
/// is a prompt, anything else an error.
pub open spec fn spec_classify_command(bytes: Seq<u8>) -> LineKind {
    let t = trim_spaces(bytes);
    if t.len() == 0 {
        LineKind::Status
    } else if known_commands().contains(first_word(t)) {
        LineKind::Prompt
    } else {
        LineKind::Error
    }
}

} // verus!

verus! {

/// The range of `b` left after trimming spaces.
fn trim_range(b: &[u8]) -> (r: (usize, usize))
    ensures
        r.0 <= r.1 <= b@.len(),
        trim_spaces(b@) == b@.subrange(r.0 as int, r.1 as int),
{
    let mut start: usize = 0;
    let mut end: usize = b.len();
    assert(b@.subrange(0, b@.len() as int) =~= b@);
    while start < end && b[start] == 32
        invariant
            start <= end == b@.len(),
            trim_spaces(b@) == trim_spaces(b@.subrange(start as int, end as int)),
        decreases end - start,
    {
        assert(b@.subrange(start as int, end as int).drop_first() =~= b@.subrange(
            start + 1,
            end as int,
        ));
        start += 1;
    }
    while start < end && b[end - 1] == 32
        invariant
            start <= end <= b@.len(),
            start < end ==> b@[start as int] != 32,
            trim_spaces(b@) == trim_spaces(b@.subrange(start as int, end as int)),
        decreases end - start,
    {
        assert(b@.subrange(start as int, end as int).drop_last() =~= b@.subrange(
            start as int,
            end - 1,
        ));
        end -= 1;
    }
    (start, end)
}

/// The end of the first word of `b[start..end]`.
fn word_end(b: &[u8], start: usize, end: usize) -> (k: usize)
    requires
        start <= end <= b@.len(),
    ensures
        start <= k <= end,
        first_word(b@.subrange(start as int, end as int)) == b@.subrange(start as int, k as int),
{
    let mut k = start;
    assert(b@.subrange(start as int, start as int) =~= Seq::<u8>::empty());
    while k < end && b[k] != 32
        invariant
            start <= k <= end <= b@.len(),
            first_word(b@.subrange(start as int, end as int)) == b@.subrange(start as int, k as int)
                + first_word(b@.subrange(k as int, end as int)),
        decreases end - k,
    {
        assert(b@.subrange(k as int, end as int).drop_first() =~= b@.subrange(k + 1, end as int));
        assert(b@.subrange(start as int, k + 1) =~= b@.subrange(start as int, k as int) + seq![
            b@[k as int],
        ]);
        k += 1;
    }
    assert(b@.subrange(start as int, k as int) + first_word(b@.subrange(k as int, end as int))
        =~= b@.subrange(start as int, k as int));
    k
}

/// Classifies a typed command line for the console transcript.
pub fn classify_command(command: &str) -> (r: LineKind)
    ensures
        r == spec_classify_command(command.spec_bytes()),
{
    let b = command.as_bytes();
    let (start, end) = trim_range(b);
    if start == end {
        assert(b@.subrange(start as int, end as int).len() == 0);
        assert(trim_spaces(b@).len() == 0);
        assert(b@ == command.spec_bytes());
        return LineKind::Status;
    }
    let k = word_end(b, start, end);
    let name = &b[start..k];
    assert(first_word(trim_spaces(b@)) == name@);
    assert(trim_spaces(b@).len() != 0);
    let known = [
        "help",
        "clear",
        "mem",
        "ls",
        "cat",
        "echo",
        "uname",
        "reboot",
        "shutdown",
        "about",
        "whoami",
        "ui",
    ];
    let ghost list = known_commands();
    assert(forall|i: int| 0 <= i < 12 ==> (#[trigger] known@[i]).spec_bytes() == list[i]);
    let mut i: usize = 0;
    while i < 12
        invariant
            i <= 12,
            known@.len() == 12,
            list == known_commands(),
            forall|j: int| 0 <= j < 12 ==> (#[trigger] known@[j]).spec_bytes() == list[j],
            forall|j: int| 0 <= j < i ==> list[j] != name@,
            b@ == command.spec_bytes(),
            first_word(trim_spaces(b@)) == name@,
            trim_spaces(b@).len() != 0,
        decreases 12 - i,
    {
        if crate::strings::bytes_equal(name, known[i].as_bytes()) {
            assert(list[i as int] == name@);
            assert(list.contains(name@));
            return LineKind::Prompt;
        }
        i += 1;
    }
    assert(!list.contains(name@));
    LineKind::Error
}

} // verus!
