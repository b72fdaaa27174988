//! The two-pass assembler: source text to a flat binary.
//!
//! The grammar is line-oriented: `;` starts a comment, a first token ending
//! in `:` declares a label (optionally followed by an instruction on the same
//! line), a leading `.` marks a directive (ignored), and an instruction is a
//! mnemonic with at most one operand token. Numerals take `$` (hex), `%`
//! (binary) or plain decimal. Zero page against absolute is decided by the
//! textual form of the operand: one or two hex digits (and values up to 255
//! for the other bases) stay in zero page.
//!
//! Pass one sizes every instruction and records label addresses; pass two
//! emits bytes, recording an unresolved reference with placeholder zeros for
//! every label the table does not hold; the resolution walk then patches or
//! reports them. Every pass is proved equal to the spec-level assembler
//! [`spec_assemble`], which substitutes label addresses directly — so a
//! successful assembly can contain no leftover placeholder.

use vstd::prelude::*;
use vstd::string::{StrSliceExecFns, StringSliceAdditionalSpecFns};

use crate::isa;
use crate::isa::{AddrMode, Mnemonic};

verus! {

/// The error kinds of the assembler; each aborts the whole assembly.
#[derive(Clone, Copy, Debug, PartialEq, Eq, Structural)]
pub enum AsmErrorKind {
    /// The first token of an instruction line names no instruction.
    UnknownMnemonic,
    /// The mnemonic requires an operand and none was given.
    MissingOperand,
    /// An operand that must be a numeral is not one, or overflows 16 bits.
    MalformedOperand,
    /// A one-byte operand position was given a value above 255.
    ValueOutOfRange,
    /// The operand form has no opcode for this mnemonic.
    IllegalAddressing,
    /// A branch displacement fell outside -128 to +127.
    BranchOutOfRange,
    /// A referenced label is defined nowhere in the source.
    UndefinedLabel,
}

/// A line-numbered assembler error. `label` names the offending label for
/// [`AsmErrorKind::UndefinedLabel`] and is empty otherwise.
#[derive(Debug, PartialEq, Eq)]
pub struct AsmError {
    pub line: usize,
    pub kind: AsmErrorKind,
    pub label: Vec<u8>,
}

/// The ghost image of an [`AsmError`].
pub struct GAsmError {
    pub line: usize,
    pub kind: AsmErrorKind,
    pub label: Seq<u8>,
}

impl View for AsmError {
    type V = GAsmError;

    open spec fn view(&self) -> GAsmError {
        GAsmError { line: self.line, kind: self.kind, label: self.label@ }
    }
}

/// An index register named in an operand.
#[derive(Clone, Copy, Debug, PartialEq, Eq, Structural)]
pub enum IndexReg {
    X,
    Y,
}

/// The parsed form of one operand token, before an addressing mode is
/// chosen. `zp` records whether the numeral's textual form selects zero page.
#[derive(Debug, PartialEq, Eq)]
pub enum OperandForm {
    /// `#value`
    Imm(u8),
    /// A bare numeral.
    Direct { value: u16, zp: bool },
    /// `numeral,X` or `numeral,Y`
    DirectIdx { value: u16, zp: bool, idx: IndexReg },
    /// `(numeral,X)`
    IndX(u8),
    /// `(numeral),Y`
    IndY(u8),
    /// A bare identifier.
    LabelRef(Vec<u8>),
    /// `identifier,X` or `identifier,Y`
    LabelIdx(Vec<u8>, IndexReg),
}

/// The ghost image of an [`OperandForm`].
pub enum GOperandForm {
    Imm(u8),
    Direct { value: u16, zp: bool },
    DirectIdx { value: u16, zp: bool, idx: IndexReg },
    IndX(u8),
    IndY(u8),
    LabelRef(Seq<u8>),
    LabelIdx(Seq<u8>, IndexReg),
}

impl View for OperandForm {
    type V = GOperandForm;

    open spec fn view(&self) -> GOperandForm {
        match self {
            OperandForm::Imm(v) => GOperandForm::Imm(*v),
            OperandForm::Direct { value, zp } => GOperandForm::Direct { value: *value, zp: *zp },
            OperandForm::DirectIdx { value, zp, idx } => GOperandForm::DirectIdx {
                value: *value,
                zp: *zp,
                idx: *idx,
            },
            OperandForm::IndX(v) => GOperandForm::IndX(*v),
            OperandForm::IndY(v) => GOperandForm::IndY(*v),
            OperandForm::LabelRef(n) => GOperandForm::LabelRef(n@),
            OperandForm::LabelIdx(n, idx) => GOperandForm::LabelIdx(n@, *idx),
        }
    }
}

/// One meaningful element of the source: a label definition or an
/// instruction with its line number.
#[derive(Debug, PartialEq, Eq)]
pub enum AsmItem {
    LabelDef { name: Vec<u8> },
    Instr { line: usize, m: Mnemonic, operand: Option<OperandForm> },
}

/// The ghost image of an [`AsmItem`].
pub enum GAsmItem {
    LabelDef { name: Seq<u8> },
    Instr { line: usize, m: Mnemonic, operand: Option<GOperandForm> },
}

pub open spec fn view_operand(o: Option<OperandForm>) -> Option<GOperandForm> {
    match o {
        Some(f) => Some(f@),
        None => None,
    }
}

impl View for AsmItem {
    type V = GAsmItem;

    open spec fn view(&self) -> GAsmItem {
        match self {
            AsmItem::LabelDef { name } => GAsmItem::LabelDef { name: name@ },
            AsmItem::Instr { line, m, operand } => GAsmItem::Instr {
                line: *line,
                m: *m,
                operand: view_operand(*operand),
            },
        }
    }
}

/// An unresolved reference: `position` indexes the first placeholder byte in
/// the output, `width` is 1 for branches and 2 for absolute operands, and
/// `line` is the source line of the referencing instruction.
#[derive(Debug, PartialEq, Eq)]
pub struct Fixup {
    pub position: usize,
    pub name: Vec<u8>,
    pub width: u8,
    pub line: usize,
}

/// The ghost image of a [`Fixup`].
pub struct GFixup {
    pub position: int,
    pub name: Seq<u8>,
    pub width: u8,
    pub line: usize,
}

impl View for Fixup {
    type V = GFixup;

    open spec fn view(&self) -> GFixup {
        GFixup {
            position: self.position as int,
            name: self.name@,
            width: self.width,
            line: self.line,
        }
    }
}

/// The views of a sequence of byte vectors.
pub open spec fn views2(s: Seq<Vec<u8>>) -> Seq<Seq<u8>> {
    s.map_values(|v: Vec<u8>| v@)
}

/// The views of a sequence of items.
pub open spec fn view_items(s: Seq<AsmItem>) -> Seq<GAsmItem> {
    s.map_values(|it: AsmItem| it@)
}

/// The views of a sequence of fixups.
pub open spec fn view_fixups(s: Seq<Fixup>) -> Seq<GFixup> {
    s.map_values(|f: Fixup| f@)
}

proof fn lemma_views2_push(s: Seq<Vec<u8>>, v: Vec<u8>)
    ensures
        views2(s.push(v)) == views2(s).push(v@),
{
    assert(views2(s.push(v)) =~= views2(s).push(v@));
}

proof fn lemma_view_items_push(s: Seq<AsmItem>, it: AsmItem)
    ensures
        view_items(s.push(it)) == view_items(s).push(it@),
{
    assert(view_items(s.push(it)) =~= view_items(s).push(it@));
}

proof fn lemma_view_fixups_push(s: Seq<Fixup>, f: Fixup)
    ensures
        view_fixups(s.push(f)) == view_fixups(s).push(f@),
{
    assert(view_fixups(s.push(f)) =~= view_fixups(s).push(f@));
}

/// Whitespace inside a line: space, tab, carriage return.
pub open spec fn is_ws(b: u8) -> bool {
    b == 32 || b == 9 || b == 13
}

/// Uppercases one ASCII letter; anything else passes through.
pub open spec fn spec_upper(b: u8) -> u8 {
    if 97 <= b && b <= 122 {
        (b - 32) as u8
    } else {
        b
    }
}

fn upper(b: u8) -> (r: u8)
    ensures
        r == spec_upper(b),
{
    if 97 <= b && b <= 122 {
        b - 32
    } else {
        b
    }
}

/// The numeric value of one digit character, before the base check.
pub open spec fn spec_digit_val(b: u8) -> Option<int> {
    if 48 <= b && b <= 57 {
        Some((b - 48) as int)
    } else if 65 <= b && b <= 70 {
        Some((b - 55) as int)
    } else if 97 <= b && b <= 102 {
        Some((b - 87) as int)
    } else {
        None
    }
}

fn digit_val(b: u8) -> (r: Option<u16>)
    ensures
        r matches Some(v) ==> spec_digit_val(b) == Some(v as int),
        r is None ==> spec_digit_val(b) is None,
{
    if 48 <= b && b <= 57 {
        Some((b - 48) as u16)
    } else if 65 <= b && b <= 70 {
        Some((b - 55) as u16)
    } else if 97 <= b && b <= 102 {
        Some((b - 87) as u16)
    } else {
        None
    }
}

/// The value of a digit string in `base`, or `None` on an invalid digit or a
/// value over 16 bits. The empty string has value 0; callers reject it.
pub open spec fn spec_parse_digits(s: Seq<u8>, base: int) -> Option<int>
    decreases s.len(),
{
    if s.len() == 0 {
        Some(0)
    } else {
        match spec_parse_digits(s.drop_last(), base) {
            None => None,
            Some(v) => match spec_digit_val(s.last()) {
                None => None,
                Some(d) => if d >= base || v * base + d > 0xFFFF {
                    None
                } else {
                    Some(v * base + d)
                },
            },
        }
    }
}

/// A numeral: `$` hex, `%` binary, else decimal. `None` when empty, when a
/// digit is invalid for the base, or when the value overflows 16 bits.
pub open spec fn spec_parse_num(s: Seq<u8>) -> Option<u16> {
    if s.len() == 0 {
        None
    } else if s[0] == 36 {
        if s.len() == 1 {
            None
        } else {
            match spec_parse_digits(s.subrange(1, s.len() as int), 16) {
                Some(v) => Some(v as u16),
                None => None,
            }
        }
    } else if s[0] == 37 {
        if s.len() == 1 {
            None
        } else {
            match spec_parse_digits(s.subrange(1, s.len() as int), 2) {
                Some(v) => Some(v as u16),
                None => None,
            }
        }
    } else {
        match spec_parse_digits(s, 10) {
            Some(v) => Some(v as u16),
            None => None,
        }
    }
}

proof fn lemma_parse_digits_extend_none(s: Seq<u8>, base: int, i: int)
    requires
        0 <= i < s.len(),
        spec_parse_digits(s.subrange(0, i + 1), base) is None,
    ensures
        spec_parse_digits(s, base) is None,
    decreases s.len(),
{
    if i + 1 == s.len() {
        assert(s.subrange(0, i + 1) =~= s);
    } else {
        assert(s.drop_last().subrange(0, i + 1) =~= s.subrange(0, i + 1));
        lemma_parse_digits_extend_none(s.drop_last(), base, i);
    }
}

/// Parses a numeral token, exactly as [`spec_parse_num`] describes.
fn parse_number(s: &Vec<u8>) -> (r: Option<u16>)
    ensures
        r == spec_parse_num(s@),
{
    if s.len() == 0 {
        return None;
    }
    let (start, base): (usize, u16) = if s[0] == 36 {
        (1, 16)
    } else if s[0] == 37 {
        (1, 2)
    } else {
        (0, 10)
    };
    if start == 1 && s.len() == 1 {
        return None;
    }
    let ghost digits: Seq<u8> = s@.subrange(start as int, s@.len() as int);
    proof {
        assert(s@.subrange(0, s@.len() as int) =~= s@);
    }
    let mut value: u16 = 0;
    let mut i: usize = start;
    while i < s.len()
        invariant
            start <= i <= s@.len(),
            s@.len() > 0,
            s@[0] == 36 ==> start == 1 && base == 16,
            s@[0] == 37 ==> start == 1 && base == 2,
            s@[0] != 36 && s@[0] != 37 ==> start == 0 && base == 10,
            digits == s@.subrange(start as int, s@.len() as int),
            start == 0 ==> digits == s@,
            2 <= base <= 16,
            value <= 0xFFFF,
            spec_parse_digits(digits.subrange(0, i - start), base as int) == Some(value as int),
        decreases s@.len() - i,
    {
        let b = s[i];
        proof {
            assert(digits.subrange(0, i + 1 - start).drop_last() =~= digits.subrange(
                0,
                i - start,
            ));
            assert(digits.subrange(0, i + 1 - start).last() == b);
        }
        let d = match digit_val(b) {
            Some(d) => d,
            None => {
                proof {
                    assert(spec_parse_digits(digits.subrange(0, i + 1 - start), base as int)
                        is None);
                    lemma_parse_digits_extend_none(digits, base as int, i - start);
                    assert(spec_parse_digits(digits, base as int) is None);
                    assert(spec_parse_num(s@) is None);
                }
                return None;
            },
        };
        if d >= base {
            proof {
                lemma_parse_digits_extend_none(digits, base as int, i - start);
            }
            return None;
        }
        proof {
            assert(value as int * base as int <= 0xFFFF * 16) by (nonlinear_arith)
                requires
                    value <= 0xFFFF,
                    base <= 16,
            ;
        }
        let next: u32 = value as u32 * base as u32 + d as u32;
        if next > 0xFFFF {
            proof {
                lemma_parse_digits_extend_none(digits, base as int, i - start);
            }
            return None;
        }
        value = next as u16;
        i = i + 1;
    }
    proof {
        assert(digits.subrange(0, s@.len() - start) =~= digits);
    }
    Some(value)
}

/// Copies `v[from..to]` into a fresh vector.
fn sub_bytes(v: &Vec<u8>, from: usize, to: usize) -> (r: Vec<u8>)
    requires
        from <= to <= v@.len(),
    ensures
        r@ == v@.subrange(from as int, to as int),
{
    let mut r: Vec<u8> = Vec::new();
    let mut i: usize = from;
    while i < to
        invariant
            from <= i <= to <= v@.len(),
            r@ == v@.subrange(from as int, i as int),
        decreases to - i,
    {
        let b = v[i];
        r.push(b);
        proof {
            assert(r@ =~= v@.subrange(from as int, i + 1));
        }
        i = i + 1;
    }
    r
}

/// Byte-for-byte equality of two byte strings.
fn bytes_eq(a: &Vec<u8>, b: &Vec<u8>) -> (r: bool)
    ensures
        r == (a@ == b@),
{
    if a.len() != b.len() {
        proof {
            assert(a@ != b@);
        }
        return false;
    }
    let mut i: usize = 0;
    while i < a.len()
        invariant
            i <= a@.len(),
            a@.len() == b@.len(),
            forall|j: int| 0 <= j < i ==> a@[j] == b@[j],
        decreases a@.len() - i,
    {
        if a[i] != b[i] {
            proof {
                assert(a@ != b@);
            }
            return false;
        }
        i = i + 1;
    }
    proof {
        assert(a@ =~= b@);
    }
    true
}

/// The source split at line feeds, left to right; the trailing piece counts
/// as a line only when it is nonempty.
pub open spec fn spec_lines_from(s: Seq<u8>, i: int, cur: Seq<u8>, acc: Seq<Seq<u8>>) -> Seq<
    Seq<u8>,
>
    decreases s.len() - i,
{
    if i < 0 || i >= s.len() {
        if cur.len() > 0 {
            acc.push(cur)
        } else {
            acc
        }
    } else if s[i] == 10 {
        spec_lines_from(s, i + 1, Seq::empty(), acc.push(cur))
    } else {
        spec_lines_from(s, i + 1, cur.push(s[i]), acc)
    }
}

pub open spec fn spec_lines(s: Seq<u8>) -> Seq<Seq<u8>> {
    spec_lines_from(s, 0, Seq::empty(), Seq::empty())
}

/// Splits the source into lines, exactly as [`spec_lines`] describes.
fn split_lines(src: &Vec<u8>) -> (r: Vec<Vec<u8>>)
    ensures
        views2(r@) == spec_lines(src@),
{
    let mut acc: Vec<Vec<u8>> = Vec::new();
    let mut cur: Vec<u8> = Vec::new();
    proof {
        assert(views2(acc@) =~= Seq::<Seq<u8>>::empty());
    }
    let mut i: usize = 0;
    while i < src.len()
        invariant
            i <= src@.len(),
            spec_lines(src@) == spec_lines_from(src@, i as int, cur@, views2(acc@)),
        decreases src@.len() - i,
    {
        let b = src[i];
        if b == 10 {
            proof {
                lemma_views2_push(acc@, cur);
            }
            acc.push(cur);
            cur = Vec::new();
            proof {
                assert(cur@ =~= Seq::<u8>::empty());
            }
        } else {
            cur.push(b);
        }
        i = i + 1;
    }
    if cur.len() > 0 {
        proof {
            lemma_views2_push(acc@, cur);
        }
        acc.push(cur);
    }
    acc
}

/// The index where the line comment starts: the first `;`, or the length.
pub open spec fn spec_comment_start(s: Seq<u8>, i: int) -> int
    decreases s.len() - i,
{
    if i < 0 || i >= s.len() {
        s.len() as int
    } else if s[i] == 59 {
        i
    } else {
        spec_comment_start(s, i + 1)
    }
}

/// The line with its comment removed.
pub open spec fn spec_strip_comment(s: Seq<u8>) -> Seq<u8> {
    s.take(spec_comment_start(s, 0))
}

/// The whitespace-separated tokens of a line, left to right.
pub open spec fn spec_tokens_from(s: Seq<u8>, i: int, cur: Seq<u8>, acc: Seq<Seq<u8>>) -> Seq<
    Seq<u8>,
>
    decreases s.len() - i,
{
    if i < 0 || i >= s.len() {
        if cur.len() > 0 {
            acc.push(cur)
        } else {
            acc
        }
    } else if is_ws(s[i]) {
        if cur.len() > 0 {
            spec_tokens_from(s, i + 1, Seq::empty(), acc.push(cur))
        } else {
            spec_tokens_from(s, i + 1, cur, acc)
        }
    } else {
        spec_tokens_from(s, i + 1, cur.push(s[i]), acc)
    }
}

/// The tokens of a line after comment stripping.
pub open spec fn spec_tokens(s: Seq<u8>) -> Seq<Seq<u8>> {
    spec_tokens_from(spec_strip_comment(s), 0, Seq::empty(), Seq::empty())
}

proof fn lemma_comment_start_bounds(s: Seq<u8>, i: int)
    requires
        0 <= i <= s.len(),
    ensures
        i <= spec_comment_start(s, i) <= s.len(),
    decreases s.len() - i,
{
    if i < s.len() && s[i] != 59 {
        lemma_comment_start_bounds(s, i + 1);
    }
}

/// Tokenizes one line, exactly as [`spec_tokens`] describes.
fn tokenize(line: &Vec<u8>) -> (r: Vec<Vec<u8>>)
    ensures
        views2(r@) == spec_tokens(line@),
{
    let ghost body: Seq<u8> = spec_strip_comment(line@);
    proof {
        lemma_comment_start_bounds(line@, 0);
        assert(views2(Seq::<Vec<u8>>::empty()) =~= Seq::<Seq<u8>>::empty());
    }
    let mut acc: Vec<Vec<u8>> = Vec::new();
    let mut cur: Vec<u8> = Vec::new();
    proof {
        assert(views2(acc@) =~= Seq::<Seq<u8>>::empty());
    }
    let mut i: usize = 0;
    while i < line.len() && line[i] != 59
        invariant
            i <= line@.len(),
            body == spec_strip_comment(line@),
            spec_comment_start(line@, 0) == spec_comment_start(line@, i as int),
            i <= spec_comment_start(line@, 0),
            body.len() == spec_comment_start(line@, 0),
            spec_tokens(line@) == spec_tokens_from(body, i as int, cur@, views2(acc@)),
        decreases line@.len() - i,
    {
        let b = line[i];
        proof {
            assert(spec_comment_start(line@, i as int) == spec_comment_start(line@, i + 1));
            lemma_comment_start_bounds(line@, i + 1);
            assert(i < body.len());
            assert(body[i as int] == line@[i as int]);
        }
        if b == 32 || b == 9 || b == 13 {
            if cur.len() > 0 {
                proof {
                    lemma_views2_push(acc@, cur);
                }
                acc.push(cur);
                cur = Vec::new();
                proof {
                    assert(cur@ =~= Seq::<u8>::empty());
                }
            }
        } else {
            cur.push(b);
        }
        i = i + 1;
    }
    proof {
        assert(spec_comment_start(line@, i as int) == i);
        assert(body.len() == i);
    }
    if cur.len() > 0 {
        proof {
            lemma_views2_push(acc@, cur);
        }
        acc.push(cur);
    }
    acc
}

/// The label table: symbolic name to 16-bit address, later definitions
/// overriding earlier ones.
pub struct LabelTable {
    entries: Vec<(Vec<u8>, u16)>,
}

/// A name looked up among recorded definitions, the last one winning.
pub open spec fn spec_lookup(entries: Seq<(Seq<u8>, u16)>, name: Seq<u8>) -> Option<u16>
    decreases entries.len(),
{
    if entries.len() == 0 {
        None
    } else if entries.last().0 == name {
        Some(entries.last().1)
    } else {
        spec_lookup(entries.drop_last(), name)
    }
}

impl View for LabelTable {
    type V = Seq<(Seq<u8>, u16)>;

    closed spec fn view(&self) -> Seq<(Seq<u8>, u16)> {
        self.entries@.map_values(|p: (Vec<u8>, u16)| (p.0@, p.1))
    }
}

impl LabelTable {
    pub fn new() -> (t: LabelTable)
        ensures
            t@ == Seq::<(Seq<u8>, u16)>::empty(),
    {
        let t = LabelTable { entries: Vec::new() };
        proof {
            assert(t@ =~= Seq::<(Seq<u8>, u16)>::empty());
        }
        t
    }

    /// Records a definition; a later one for the same name wins lookups.
    pub fn insert(&mut self, name: Vec<u8>, address: u16)
        ensures
            final(self)@ == old(self)@.push((name@, address)),
    {
        let ghost pre = self.entries@;
        self.entries.push((name, address));
        proof {
            assert(self@ =~= old(self)@.push((name@, address)));
        }
    }

    /// Finds the address of a name, the most recent definition winning.
    pub fn get(&self, name: &Vec<u8>) -> (r: Option<u16>)
        ensures
            r == spec_lookup(self@, name@),
    {
        let mut j: usize = self.entries.len();
        proof {
            assert(self@.subrange(0, self@.len() as int) =~= self@);
        }
        while j > 0
            invariant
                j <= self.entries@.len(),
                self@.len() == self.entries@.len(),
                spec_lookup(self@, name@) == spec_lookup(self@.subrange(0, j as int), name@),
            decreases j,
        {
            j = j - 1;
            let hit = bytes_eq(&self.entries[j].0, name);
            proof {
                assert(self@.subrange(0, j + 1).last() == (self.entries@[j as int].0@,
                self.entries@[j as int].1));
                assert(self@.subrange(0, j + 1).drop_last() =~= self@.subrange(0, j as int));
            }
            if hit {
                return Some(self.entries[j].1);
            }
        }
        proof {
            assert(self@.subrange(0, 0) =~= Seq::<(Seq<u8>, u16)>::empty());
        }
        None
    }
}

/// Whether a token can open a numeral: `$`, `%` or a decimal digit.
pub open spec fn is_num_start(b: u8) -> bool {
    b == 36 || b == 37 || (48 <= b && b <= 57)
}

/// The textual zero-page rule: one or two hex digits, up to eight binary
/// digits, or a decimal value up to 255.
pub open spec fn spec_zp_width(o: Seq<u8>, v: u16) -> bool {
    if o.len() > 0 && o[0] == 36 {
        o.len() <= 3
    } else if o.len() > 0 && o[0] == 37 {
        o.len() <= 9
    } else {
        v <= 255
    }
}

/// The index of the first comma, or the length.
pub open spec fn spec_comma_pos(s: Seq<u8>, i: int) -> int
    decreases s.len() - i,
{
    if i < 0 || i >= s.len() {
        s.len() as int
    } else if s[i] == 44 {
        i
    } else {
        spec_comma_pos(s, i + 1)
    }
}

proof fn lemma_comma_pos_bounds(s: Seq<u8>, i: int)
    requires
        0 <= i <= s.len(),
    ensures
        i <= spec_comma_pos(s, i) <= s.len(),
        spec_comma_pos(s, i) < s.len() ==> s[spec_comma_pos(s, i)] == 44,
    decreases s.len() - i,
{
    if i < s.len() && s[i] != 44 {
        lemma_comma_pos_bounds(s, i + 1);
    }
}

fn find_comma(o: &Vec<u8>) -> (r: usize)
    ensures
        r as int == spec_comma_pos(o@, 0),
{
    let mut i: usize = 0;
    while i < o.len()
        invariant
            i <= o@.len(),
            spec_comma_pos(o@, 0) == spec_comma_pos(o@, i as int),
        decreases o@.len() - i,
    {
        if o[i] == 44 {
            return i;
        }
        i = i + 1;
    }
    i
}

/// One operand token parsed into its form. The numeral inside `#`, `(..,X)`
/// and `(..),Y` must fit one byte; indexed and direct numerals may be two.
pub open spec fn spec_parse_operand(o: Seq<u8>) -> Result<GOperandForm, AsmErrorKind> {
    if o.len() == 0 {
        Err(AsmErrorKind::MalformedOperand)
    } else if o[0] == 35 {
        match spec_parse_num(o.subrange(1, o.len() as int)) {
            None => Err(AsmErrorKind::MalformedOperand),
            Some(v) => if v > 255 {
                Err(AsmErrorKind::ValueOutOfRange)
            } else {
                Ok(GOperandForm::Imm(v as u8))
            },
        }
    } else if o[0] == 40 {
        if o.len() >= 4 && o[o.len() - 3] == 44 && spec_upper(o[o.len() - 2]) == 88 && o[o.len()
            - 1] == 41 {
            match spec_parse_num(o.subrange(1, o.len() - 3)) {
                None => Err(AsmErrorKind::MalformedOperand),
                Some(v) => if v > 255 {
                    Err(AsmErrorKind::ValueOutOfRange)
                } else {
                    Ok(GOperandForm::IndX(v as u8))
                },
            }
        } else if o.len() >= 4 && o[o.len() - 3] == 41 && o[o.len() - 2] == 44 && spec_upper(
            o[o.len() - 1],
        ) == 89 {
            match spec_parse_num(o.subrange(1, o.len() - 3)) {
                None => Err(AsmErrorKind::MalformedOperand),
                Some(v) => if v > 255 {
                    Err(AsmErrorKind::ValueOutOfRange)
                } else {
                    Ok(GOperandForm::IndY(v as u8))
                },
            }
        } else {
            Err(AsmErrorKind::MalformedOperand)
        }
    } else {
        let k = spec_comma_pos(o, 0);
        if k < o.len() {
            let ap = o.take(k);
            let ip = o.subrange(k + 1, o.len() as int);
            if ip.len() == 1 && (spec_upper(ip[0]) == 88 || spec_upper(ip[0]) == 89) {
                let idx = if spec_upper(ip[0]) == 88 {
                    IndexReg::X
                } else {
                    IndexReg::Y
                };
                if ap.len() > 0 && is_num_start(ap[0]) {
                    match spec_parse_num(ap) {
                        None => Err(AsmErrorKind::MalformedOperand),
                        Some(v) => Ok(
                            GOperandForm::DirectIdx { value: v, zp: spec_zp_width(ap, v), idx },
                        ),
                    }
                } else {
                    Ok(GOperandForm::LabelIdx(ap, idx))
                }
            } else {
                Err(AsmErrorKind::IllegalAddressing)
            }
        } else if is_num_start(o[0]) {
            match spec_parse_num(o) {
                None => Err(AsmErrorKind::MalformedOperand),
                Some(v) => Ok(GOperandForm::Direct { value: v, zp: spec_zp_width(o, v) }),
            }
        } else {
            Ok(GOperandForm::LabelRef(o))
        }
    }
}

pub open spec fn view_res_operand(r: Result<OperandForm, AsmErrorKind>) -> Result<
    GOperandForm,
    AsmErrorKind,
> {
    match r {
        Ok(f) => Ok(f@),
        Err(k) => Err(k),
    }
}

/// Parses one operand token, exactly as [`spec_parse_operand`] describes.
fn parse_operand(o: &Vec<u8>) -> (r: Result<OperandForm, AsmErrorKind>)
    ensures
        view_res_operand(r) == spec_parse_operand(o@),
{
    if o.len() == 0 {
        return Err(AsmErrorKind::MalformedOperand);
    }
    let b0 = o[0];
    if b0 == 35 {
        let rest = sub_bytes(o, 1, o.len());
        match parse_number(&rest) {
            None => Err(AsmErrorKind::MalformedOperand),
            Some(v) => if v > 255 {
                Err(AsmErrorKind::ValueOutOfRange)
            } else {
                Ok(OperandForm::Imm(v as u8))
            },
        }
    } else if b0 == 40 {
        let n = o.len();
        if n >= 4 && o[n - 3] == 44 && upper(o[n - 2]) == 88 && o[n - 1] == 41 {
            let inner = sub_bytes(o, 1, n - 3);
            match parse_number(&inner) {
                None => Err(AsmErrorKind::MalformedOperand),
                Some(v) => if v > 255 {
                    Err(AsmErrorKind::ValueOutOfRange)
                } else {
                    Ok(OperandForm::IndX(v as u8))
                },
            }
        } else if n >= 4 && o[n - 3] == 41 && o[n - 2] == 44 && upper(o[n - 1]) == 89 {
            let inner = sub_bytes(o, 1, n - 3);
            match parse_number(&inner) {
                None => Err(AsmErrorKind::MalformedOperand),
                Some(v) => if v > 255 {
                    Err(AsmErrorKind::ValueOutOfRange)
                } else {
                    Ok(OperandForm::IndY(v as u8))
                },
            }
        } else {
            Err(AsmErrorKind::MalformedOperand)
        }
    } else {
        let k = find_comma(o);
        proof {
            lemma_comma_pos_bounds(o@, 0);
        }
        if k < o.len() {
            let ap = sub_bytes(o, 0, k);
            let ip = sub_bytes(o, k + 1, o.len());
            proof {
                assert(ap@ =~= o@.take(k as int));
            }
            if ip.len() == 1 && (upper(ip[0]) == 88 || upper(ip[0]) == 89) {
                let idx = if upper(ip[0]) == 88 {
                    IndexReg::X
                } else {
                    IndexReg::Y
                };
                if ap.len() > 0 && (ap[0] == 36 || ap[0] == 37 || (48 <= ap[0] && ap[0] <= 57)) {
                    match parse_number(&ap) {
                        None => Err(AsmErrorKind::MalformedOperand),
                        Some(v) => {
                            let zp = if ap[0] == 36 {
                                ap.len() <= 3
                            } else if ap[0] == 37 {
                                ap.len() <= 9
                            } else {
                                v <= 255
                            };
                            Ok(OperandForm::DirectIdx { value: v, zp, idx })
                        },
                    }
                } else {
                    Ok(OperandForm::LabelIdx(ap, idx))
                }
            } else {
                Err(AsmErrorKind::IllegalAddressing)
            }
        } else {
            if b0 == 36 || b0 == 37 || (48 <= b0 && b0 <= 57) {
                match parse_number(o) {
                    None => Err(AsmErrorKind::MalformedOperand),
                    Some(v) => {
                        let zp = if b0 == 36 {
                            o.len() <= 3
                        } else if b0 == 37 {
                            o.len() <= 9
                        } else {
                            v <= 255
                        };
                        Ok(OperandForm::Direct { value: v, zp })
                    },
                }
            } else {
                let name = sub_bytes(o, 0, o.len());
                proof {
                    assert(name@ =~= o@);
                }
                Ok(OperandForm::LabelRef(name))
            }
        }
    }
}

/// The mnemonics that take no operand.
pub open spec fn spec_is_implied(m: Mnemonic) -> bool {
    ||| m == Mnemonic::TAX
    ||| m == Mnemonic::TAY
    ||| m == Mnemonic::TXA
    ||| m == Mnemonic::TYA
    ||| m == Mnemonic::INX
    ||| m == Mnemonic::INY
    ||| m == Mnemonic::DEX
    ||| m == Mnemonic::DEY
    ||| m == Mnemonic::RTS
    ||| m == Mnemonic::NOP
    ||| m == Mnemonic::BRK
    ||| m == Mnemonic::HLT
}

fn is_implied(m: Mnemonic) -> (r: bool)
    ensures
        r == spec_is_implied(m),
{
    match m {
        Mnemonic::TAX | Mnemonic::TAY | Mnemonic::TXA | Mnemonic::TYA | Mnemonic::INX
            | Mnemonic::INY | Mnemonic::DEX | Mnemonic::DEY | Mnemonic::RTS | Mnemonic::NOP
            | Mnemonic::BRK | Mnemonic::HLT => true,
        _ => false,
    }
}

/// Three uppercased letters matched against a mnemonic name.
pub open spec fn is_mn(s: Seq<u8>, a: u8, b: u8, c: u8) -> bool {
    s.len() == 3 && spec_upper(s[0]) == a && spec_upper(s[1]) == b && spec_upper(s[2]) == c
}

/// The mnemonic a token names, case-insensitively.
pub open spec fn spec_mnemonic_of(s: Seq<u8>) -> Option<Mnemonic> {
    if is_mn(s, 76, 68, 65) {
        Some(Mnemonic::LDA)
    } else if is_mn(s, 76, 68, 88) {
        Some(Mnemonic::LDX)
    } else if is_mn(s, 76, 68, 89) {
        Some(Mnemonic::LDY)
    } else if is_mn(s, 83, 84, 65) {
        Some(Mnemonic::STA)
    } else if is_mn(s, 83, 84, 88) {
        Some(Mnemonic::STX)
    } else if is_mn(s, 83, 84, 89) {
        Some(Mnemonic::STY)
    } else if is_mn(s, 65, 68, 67) {
        Some(Mnemonic::ADC)
    } else if is_mn(s, 83, 66, 67) {
        Some(Mnemonic::SBC)
    } else if is_mn(s, 65, 78, 68) {
        Some(Mnemonic::AND)
    } else if is_mn(s, 79, 82, 65) {
        Some(Mnemonic::ORA)
    } else if is_mn(s, 69, 79, 82) {
        Some(Mnemonic::EOR)
    } else if is_mn(s, 67, 77, 80) {
        Some(Mnemonic::CMP)
    } else if is_mn(s, 67, 80, 88) {
        Some(Mnemonic::CPX)
    } else if is_mn(s, 67, 80, 89) {
        Some(Mnemonic::CPY)
    } else if is_mn(s, 73, 78, 67) {
        Some(Mnemonic::INC)
    } else if is_mn(s, 68, 69, 67) {
        Some(Mnemonic::DEC)
    } else if is_mn(s, 84, 65, 88) {
        Some(Mnemonic::TAX)
    } else if is_mn(s, 84, 65, 89) {
        Some(Mnemonic::TAY)
    } else if is_mn(s, 84, 88, 65) {
        Some(Mnemonic::TXA)
    } else if is_mn(s, 84, 89, 65) {
        Some(Mnemonic::TYA)
    } else if is_mn(s, 73, 78, 88) {
        Some(Mnemonic::INX)
    } else if is_mn(s, 73, 78, 89) {
        Some(Mnemonic::INY)
    } else if is_mn(s, 68, 69, 88) {
        Some(Mnemonic::DEX)
    } else if is_mn(s, 68, 69, 89) {
        Some(Mnemonic::DEY)
    } else if is_mn(s, 74, 77, 80) {
        Some(Mnemonic::JMP)
    } else if is_mn(s, 74, 83, 82) {
        Some(Mnemonic::JSR)
    } else if is_mn(s, 82, 84, 83) {
        Some(Mnemonic::RTS)
    } else if is_mn(s, 66, 69, 81) {
        Some(Mnemonic::BEQ)
    } else if is_mn(s, 66, 78, 69) {
        Some(Mnemonic::BNE)
    } else if is_mn(s, 66, 67, 83) {
        Some(Mnemonic::BCS)
    } else if is_mn(s, 66, 67, 67) {
        Some(Mnemonic::BCC)
    } else if is_mn(s, 66, 77, 73) {
        Some(Mnemonic::BMI)
    } else if is_mn(s, 66, 80, 76) {
        Some(Mnemonic::BPL)
    } else if is_mn(s, 78, 79, 80) {
        Some(Mnemonic::NOP)
    } else if is_mn(s, 66, 82, 75) {
        Some(Mnemonic::BRK)
    } else if is_mn(s, 72, 76, 84) {
        Some(Mnemonic::HLT)
    } else if is_mn(s, 68, 66, 71) {
        Some(Mnemonic::DBG)
    } else if is_mn(s, 83, 78, 68) {
        Some(Mnemonic::SND)
    } else {
        None
    }
}

/// Finds the mnemonic a token names, exactly as [`spec_mnemonic_of`] does.
fn mnemonic_of(s: &Vec<u8>) -> (r: Option<Mnemonic>)
    ensures
        r == spec_mnemonic_of(s@),
{
    if s.len() != 3 {
        return None;
    }
    let a = upper(s[0]);
    let b = upper(s[1]);
    let c = upper(s[2]);
    match (a, b, c) {
        (76, 68, 65) => Some(Mnemonic::LDA),
        (76, 68, 88) => Some(Mnemonic::LDX),
        (76, 68, 89) => Some(Mnemonic::LDY),
        (83, 84, 65) => Some(Mnemonic::STA),
        (83, 84, 88) => Some(Mnemonic::STX),
        (83, 84, 89) => Some(Mnemonic::STY),
        (65, 68, 67) => Some(Mnemonic::ADC),
        (83, 66, 67) => Some(Mnemonic::SBC),
        (65, 78, 68) => Some(Mnemonic::AND),
        (79, 82, 65) => Some(Mnemonic::ORA),
        (69, 79, 82) => Some(Mnemonic::EOR),
        (67, 77, 80) => Some(Mnemonic::CMP),
        (67, 80, 88) => Some(Mnemonic::CPX),
        (67, 80, 89) => Some(Mnemonic::CPY),
        (73, 78, 67) => Some(Mnemonic::INC),
        (68, 69, 67) => Some(Mnemonic::DEC),
        (84, 65, 88) => Some(Mnemonic::TAX),
        (84, 65, 89) => Some(Mnemonic::TAY),
        (84, 88, 65) => Some(Mnemonic::TXA),
        (84, 89, 65) => Some(Mnemonic::TYA),
        (73, 78, 88) => Some(Mnemonic::INX),
        (73, 78, 89) => Some(Mnemonic::INY),
        (68, 69, 88) => Some(Mnemonic::DEX),
        (68, 69, 89) => Some(Mnemonic::DEY),
        (74, 77, 80) => Some(Mnemonic::JMP),
        (74, 83, 82) => Some(Mnemonic::JSR),
        (82, 84, 83) => Some(Mnemonic::RTS),
        (66, 69, 81) => Some(Mnemonic::BEQ),
        (66, 78, 69) => Some(Mnemonic::BNE),
        (66, 67, 83) => Some(Mnemonic::BCS),
        (66, 67, 67) => Some(Mnemonic::BCC),
        (66, 77, 73) => Some(Mnemonic::BMI),
        (66, 80, 76) => Some(Mnemonic::BPL),
        (78, 79, 80) => Some(Mnemonic::NOP),
        (66, 82, 75) => Some(Mnemonic::BRK),
        (72, 76, 84) => Some(Mnemonic::HLT),
        (68, 66, 71) => Some(Mnemonic::DBG),
        (83, 78, 68) => Some(Mnemonic::SND),
        _ => None,
    }
}

/// One instruction parsed from the tokens starting at `k`: the mnemonic,
/// then for operand-taking mnemonics the next token; implied mnemonics
/// ignore anything after themselves.
pub open spec fn spec_parse_instr(ts: Seq<Seq<u8>>, k: int, lineno: usize) -> Result<
    GAsmItem,
    GAsmError,
> {
    match spec_mnemonic_of(ts[k]) {
        None => Err(
            GAsmError { line: lineno, kind: AsmErrorKind::UnknownMnemonic, label: Seq::empty() },
        ),
        Some(m) => if spec_is_implied(m) {
            Ok(GAsmItem::Instr { line: lineno, m, operand: None })
        } else if ts.len() > k + 1 {
            match spec_parse_operand(ts[k + 1]) {
                Err(kind) => Err(GAsmError { line: lineno, kind, label: Seq::empty() }),
                Ok(f) => Ok(GAsmItem::Instr { line: lineno, m, operand: Some(f) }),
            }
        } else {
            Ok(GAsmItem::Instr { line: lineno, m, operand: None })
        },
    }
}

/// One line parsed into zero, one or two items: comments and directives
/// vanish, a first token ending in `:` defines a label, and the rest (or the
/// whole line) is an instruction.
pub open spec fn spec_parse_line(line: Seq<u8>, lineno: usize) -> Result<Seq<GAsmItem>, GAsmError> {
    let ts = spec_tokens(line);
    if ts.len() == 0 {
        Ok(Seq::empty())
    } else if ts[0].len() > 0 && ts[0][0] == 46 {
        Ok(Seq::empty())
    } else if ts[0].len() > 0 && ts[0].last() == 58 {
        let name = ts[0].drop_last();
        if ts.len() == 1 {
            Ok(seq![GAsmItem::LabelDef { name }])
        } else {
            match spec_parse_instr(ts, 1, lineno) {
                Err(e) => Err(e),
                Ok(it) => Ok(seq![GAsmItem::LabelDef { name }, it]),
            }
        }
    } else {
        match spec_parse_instr(ts, 0, lineno) {
            Err(e) => Err(e),
            Ok(it) => Ok(seq![it]),
        }
    }
}

/// All lines parsed in order; the first error aborts.
pub open spec fn spec_parse_from(lines: Seq<Seq<u8>>, i: int, acc: Seq<GAsmItem>) -> Result<
    Seq<GAsmItem>,
    GAsmError,
>
    decreases lines.len() - i,
{
    if i < 0 || i >= lines.len() {
        Ok(acc)
    } else {
        match spec_parse_line(lines[i], (i + 1) as usize) {
            Err(e) => Err(e),
            Ok(its) => spec_parse_from(lines, i + 1, acc + its),
        }
    }
}

/// The whole source parsed into items.
pub open spec fn spec_parse(src: Seq<u8>) -> Result<Seq<GAsmItem>, GAsmError> {
    spec_parse_from(spec_lines(src), 0, Seq::empty())
}

/// The conditional branch mnemonics.
pub open spec fn spec_is_branch(m: Mnemonic) -> bool {
    ||| m == Mnemonic::BEQ
    ||| m == Mnemonic::BNE
    ||| m == Mnemonic::BCS
    ||| m == Mnemonic::BCC
    ||| m == Mnemonic::BMI
    ||| m == Mnemonic::BPL
}

/// The addressing mode chosen for a mnemonic and operand form, or the error
/// that rejects the combination. A zero-page-width indexed numeral falls back
/// to the absolute mode when the mnemonic has no zero-page row; a combination
/// with no opcode in the table is illegal.
pub open spec fn spec_select_mode(m: Mnemonic, op: Option<GOperandForm>) -> Result<
    AddrMode,
    AsmErrorKind,
> {
    if spec_is_implied(m) {
        Ok(AddrMode::Implied)
    } else {
        match op {
            None => Err(AsmErrorKind::MissingOperand),
            Some(f) => if spec_is_branch(m) {
                match f {
                    GOperandForm::Direct { .. } => Ok(AddrMode::Relative),
                    GOperandForm::LabelRef(_) => Ok(AddrMode::Relative),
                    _ => Err(AsmErrorKind::IllegalAddressing),
                }
            } else if m == Mnemonic::JMP || m == Mnemonic::JSR {
                match f {
                    GOperandForm::Direct { .. } => Ok(AddrMode::Absolute),
                    GOperandForm::LabelRef(_) => Ok(AddrMode::Absolute),
                    _ => Err(AsmErrorKind::IllegalAddressing),
                }
            } else if m == Mnemonic::SND {
                match f {
                    GOperandForm::Direct { value, .. } => if value > 255 {
                        Err(AsmErrorKind::ValueOutOfRange)
                    } else {
                        Ok(AddrMode::Packed)
                    },
                    _ => Err(AsmErrorKind::IllegalAddressing),
                }
            } else if m == Mnemonic::DBG {
                match f {
                    GOperandForm::Direct { .. } => Ok(AddrMode::Absolute),
                    _ => Err(AsmErrorKind::IllegalAddressing),
                }
            } else {
                match f {
                    GOperandForm::Imm(_) => if isa::opcode_for(m, AddrMode::Immediate) is Some {
                        Ok(AddrMode::Immediate)
                    } else {
                        Err(AsmErrorKind::IllegalAddressing)
                    },
                    GOperandForm::Direct { zp, .. } => if zp && isa::opcode_for(
                        m,
                        AddrMode::ZeroPage,
                    ) is Some {
                        Ok(AddrMode::ZeroPage)
                    } else if isa::opcode_for(m, AddrMode::Absolute) is Some {
                        Ok(AddrMode::Absolute)
                    } else {
                        Err(AsmErrorKind::IllegalAddressing)
                    },
                    GOperandForm::DirectIdx { zp, idx, .. } => {
                        let zm = if idx == IndexReg::X {
                            AddrMode::ZeroPageX
                        } else {
                            AddrMode::ZeroPageY
                        };
                        let am = if idx == IndexReg::X {
                            AddrMode::AbsoluteX
                        } else {
                            AddrMode::AbsoluteY
                        };
                        if zp && isa::opcode_for(m, zm) is Some {
                            Ok(zm)
                        } else if isa::opcode_for(m, am) is Some {
                            Ok(am)
                        } else {
                            Err(AsmErrorKind::IllegalAddressing)
                        }
                    },
                    GOperandForm::IndX(_) => if isa::opcode_for(m, AddrMode::IndirectX) is Some {
                        Ok(AddrMode::IndirectX)
                    } else {
                        Err(AsmErrorKind::IllegalAddressing)
                    },
                    GOperandForm::IndY(_) => if isa::opcode_for(m, AddrMode::IndirectY) is Some {
                        Ok(AddrMode::IndirectY)
                    } else {
                        Err(AsmErrorKind::IllegalAddressing)
                    },
                    GOperandForm::LabelRef(_) => if isa::opcode_for(m, AddrMode::Absolute)
                        is Some {
                        Ok(AddrMode::Absolute)
                    } else {
                        Err(AsmErrorKind::IllegalAddressing)
                    },
                    GOperandForm::LabelIdx(_, idx) => {
                        let am = if idx == IndexReg::X {
                            AddrMode::AbsoluteX
                        } else {
                            AddrMode::AbsoluteY
                        };
                        if isa::opcode_for(m, am) is Some {
                            Ok(am)
                        } else {
                            Err(AsmErrorKind::IllegalAddressing)
                        }
                    },
                }
            },
        }
    }
}

/// Law: every mode the selector chooses has an opcode in the table.
pub proof fn lemma_select_mode_encodable(m: Mnemonic, op: Option<GOperandForm>)
    ensures
        spec_select_mode(m, op) matches Ok(mode) ==> isa::opcode_for(m, mode) is Some,
{
}

/// The opcode of an encodable combination; zero where none exists.
pub open spec fn spec_opc(m: Mnemonic, mode: AddrMode) -> u8 {
    match isa::opcode_for(m, mode) {
        Some(o) => o,
        None => 0,
    }
}

/// Chooses the addressing mode, exactly as [`spec_select_mode`] describes.
pub fn select_mode(m: Mnemonic, op: &Option<OperandForm>) -> (r: Result<AddrMode, AsmErrorKind>)
    ensures
        r == spec_select_mode(m, view_operand(*op)),
{
    if is_implied(m) {
        return Ok(AddrMode::Implied);
    }
    let f = match op {
        None => {
            return Err(AsmErrorKind::MissingOperand);
        },
        Some(f) => f,
    };
    let branch = match m {
        Mnemonic::BEQ | Mnemonic::BNE | Mnemonic::BCS | Mnemonic::BCC | Mnemonic::BMI
            | Mnemonic::BPL => true,
        _ => false,
    };
    if branch {
        return match f {
            OperandForm::Direct { .. } => Ok(AddrMode::Relative),
            OperandForm::LabelRef(_) => Ok(AddrMode::Relative),
            _ => Err(AsmErrorKind::IllegalAddressing),
        };
    }
    match m {
        Mnemonic::JMP | Mnemonic::JSR => {
            return match f {
                OperandForm::Direct { .. } => Ok(AddrMode::Absolute),
                OperandForm::LabelRef(_) => Ok(AddrMode::Absolute),
                _ => Err(AsmErrorKind::IllegalAddressing),
            };
        },
        Mnemonic::SND => {
            return match f {
                OperandForm::Direct { value, .. } => if *value > 255 {
                    Err(AsmErrorKind::ValueOutOfRange)
                } else {
                    Ok(AddrMode::Packed)
                },
                _ => Err(AsmErrorKind::IllegalAddressing),
            };
        },
        Mnemonic::DBG => {
            return match f {
                OperandForm::Direct { .. } => Ok(AddrMode::Absolute),
                _ => Err(AsmErrorKind::IllegalAddressing),
            };
        },
        _ => {},
    }
    match f {
        OperandForm::Imm(_) => {
            if isa::opcode_lookup(m, AddrMode::Immediate).is_some() {
                Ok(AddrMode::Immediate)
            } else {
                Err(AsmErrorKind::IllegalAddressing)
            }
        },
        OperandForm::Direct { zp, .. } => {
            if *zp && isa::opcode_lookup(m, AddrMode::ZeroPage).is_some() {
                Ok(AddrMode::ZeroPage)
            } else if isa::opcode_lookup(m, AddrMode::Absolute).is_some() {
                Ok(AddrMode::Absolute)
            } else {
                Err(AsmErrorKind::IllegalAddressing)
            }
        },
        OperandForm::DirectIdx { zp, idx, .. } => {
            let zm = if *idx == IndexReg::X {
                AddrMode::ZeroPageX
            } else {
                AddrMode::ZeroPageY
            };
            let am = if *idx == IndexReg::X {
                AddrMode::AbsoluteX
            } else {
                AddrMode::AbsoluteY
            };
            if *zp && isa::opcode_lookup(m, zm).is_some() {
                Ok(zm)
            } else if isa::opcode_lookup(m, am).is_some() {
                Ok(am)
            } else {
                Err(AsmErrorKind::IllegalAddressing)
            }
        },
        OperandForm::IndX(_) => {
            if isa::opcode_lookup(m, AddrMode::IndirectX).is_some() {
                Ok(AddrMode::IndirectX)
            } else {
                Err(AsmErrorKind::IllegalAddressing)
            }
        },
        OperandForm::IndY(_) => {
            if isa::opcode_lookup(m, AddrMode::IndirectY).is_some() {
                Ok(AddrMode::IndirectY)
            } else {
                Err(AsmErrorKind::IllegalAddressing)
            }
        },
        OperandForm::LabelRef(_) => {
            if isa::opcode_lookup(m, AddrMode::Absolute).is_some() {
                Ok(AddrMode::Absolute)
            } else {
                Err(AsmErrorKind::IllegalAddressing)
            }
        },
        OperandForm::LabelIdx(_, idx) => {
            let am = if *idx == IndexReg::X {
                AddrMode::AbsoluteX
            } else {
                AddrMode::AbsoluteY
            };
            if isa::opcode_lookup(m, am).is_some() {
                Ok(am)
            } else {
                Err(AsmErrorKind::IllegalAddressing)
            }
        },
    }
}

/// Pass one over the items: accumulate instruction sizes into a running
/// address (with 16-bit wrap) and record each label at the address it
/// precedes. The first illegal combination aborts with its line.
pub open spec fn spec_pass1_from(
    items: Seq<GAsmItem>,
    i: int,
    addr: u16,
    labels: Seq<(Seq<u8>, u16)>,
) -> Result<Seq<(Seq<u8>, u16)>, GAsmError>
    decreases items.len() - i,
{
    if i < 0 || i >= items.len() {
        Ok(labels)
    } else {
        match items[i] {
            GAsmItem::LabelDef { name } => spec_pass1_from(
                items,
                i + 1,
                addr,
                labels.push((name, addr)),
            ),
            GAsmItem::Instr { line, m, operand } => match spec_select_mode(m, operand) {
                Err(kind) => Err(GAsmError { line, kind, label: Seq::empty() }),
                Ok(mode) => spec_pass1_from(
                    items,
                    i + 1,
                    crate::cpu::wrap16(addr + isa::spec_instr_len(mode)),
                    labels,
                ),
            },
        }
    }
}

pub open spec fn spec_pass1(items: Seq<GAsmItem>) -> Result<Seq<(Seq<u8>, u16)>, GAsmError> {
    spec_pass1_from(items, 0, 0, Seq::empty())
}

/// Runs pass one, exactly as [`spec_pass1`] describes.
fn pass1(items: &Vec<AsmItem>) -> (r: Result<LabelTable, AsmError>)
    ensures
        match (r, spec_pass1(view_items(items@))) {
            (Ok(t), Ok(gl)) => t@ == gl,
            (Err(e), Err(g)) => e@ == g,
            _ => false,
        },
{
    let ghost gitems = view_items(items@);
    let mut labels = LabelTable::new();
    let mut addr: u16 = 0;
    let mut i: usize = 0;
    while i < items.len()
        invariant
            i <= items@.len(),
            gitems == view_items(items@),
            gitems.len() == items@.len(),
            spec_pass1(gitems) == spec_pass1_from(gitems, i as int, addr, labels@),
        decreases items@.len() - i,
    {
        proof {
            assert(gitems[i as int] == items@[i as int]@);
        }
        match &items[i] {
            AsmItem::LabelDef { name } => {
                let owned = sub_bytes(name, 0, name.len());
                proof {
                    assert(owned@ =~= name@);
                }
                labels.insert(owned, addr);
            },
            AsmItem::Instr { line, m, operand } => {
                match select_mode(*m, operand) {
                    Err(kind) => {
                        return Err(AsmError { line: *line, kind, label: Vec::new() });
                    },
                    Ok(mode) => {
                        let sz = isa::instr_len(mode);
                        addr = addr.wrapping_add(sz);
                    },
                }
            },
        }
        i = i + 1;
    }
    Ok(labels)
}

fn parse_instr_exec(ts: &Vec<Vec<u8>>, k: usize, lineno: usize) -> (r: Result<AsmItem, AsmError>)
    requires
        k < ts@.len(),
    ensures
        match (r, spec_parse_instr(views2(ts@), k as int, lineno)) {
            (Ok(it), Ok(git)) => it@ == git,
            (Err(e), Err(g)) => e@ == g,
            _ => false,
        },
{
    match mnemonic_of(&ts[k]) {
        None => Err(
            AsmError { line: lineno, kind: AsmErrorKind::UnknownMnemonic, label: Vec::new() },
        ),
        Some(m) => {
            if is_implied(m) {
                Ok(AsmItem::Instr { line: lineno, m, operand: None })
            } else if ts.len() > k + 1 {
                match parse_operand(&ts[k + 1]) {
                    Err(kind) => Err(AsmError { line: lineno, kind, label: Vec::new() }),
                    Ok(f) => Ok(AsmItem::Instr { line: lineno, m, operand: Some(f) }),
                }
            } else {
                Ok(AsmItem::Instr { line: lineno, m, operand: None })
            }
        },
    }
}

/// The absolute-operand emission for a label: a defined label's address in
/// little-endian order, an undefined one as two placeholder zeros plus a
/// width-2 unresolved reference at the operand's position.
pub open spec fn spec_label_abs(
    bytes: Seq<u8>,
    fixups: Seq<GFixup>,
    opc: u8,
    name: Seq<u8>,
    labels: Seq<(Seq<u8>, u16)>,
    line: usize,
) -> (Seq<u8>, Seq<GFixup>) {
    match spec_lookup(labels, name) {
        Some(a) => (bytes.push(opc).push((a % 256) as u8).push((a / 256) as u8), fixups),
        None => (
            bytes.push(opc).push(0).push(0),
            fixups.push(GFixup { position: bytes.len() as int + 1, name, width: 2, line }),
        ),
    }
}

/// The relative-branch emission toward a known target: the displacement from
/// the byte after the branch, rejected outside -128 to +127.
pub open spec fn spec_rel(
    bytes: Seq<u8>,
    fixups: Seq<GFixup>,
    opc: u8,
    target: int,
    pc: int,
    line: usize,
) -> Result<(Seq<u8>, Seq<GFixup>), GAsmError> {
    let disp = target - (pc + 2);
    if disp < -128 || disp > 127 {
        Err(GAsmError { line, kind: AsmErrorKind::BranchOutOfRange, label: Seq::empty() })
    } else {
        Ok((bytes.push(opc).push(crate::cpu::wrap8(disp)), fixups))
    }
}

/// One instruction emitted onto the output state: opcode byte, then the
/// operand bytes of the chosen mode. The current address is the output
/// length modulo 2^16.
pub open spec fn spec_emit_instr(
    bytes: Seq<u8>,
    fixups: Seq<GFixup>,
    line: usize,
    m: Mnemonic,
    op: Option<GOperandForm>,
    labels: Seq<(Seq<u8>, u16)>,
) -> Result<(Seq<u8>, Seq<GFixup>), GAsmError> {
    match spec_select_mode(m, op) {
        Err(kind) => Err(GAsmError { line, kind, label: Seq::empty() }),
        Ok(mode) => {
            let opc = spec_opc(m, mode);
            let pc = bytes.len() as int % 0x10000;
            let ill = GAsmError {
                line,
                kind: AsmErrorKind::IllegalAddressing,
                label: Seq::empty(),
            };
            match mode {
                AddrMode::Implied => Ok((bytes.push(opc), fixups)),
                AddrMode::Immediate => match op {
                    Some(GOperandForm::Imm(v)) => Ok((bytes.push(opc).push(v), fixups)),
                    _ => Err(ill),
                },
                AddrMode::ZeroPage => match op {
                    Some(GOperandForm::Direct { value, .. }) => Ok(
                        (bytes.push(opc).push((value % 256) as u8), fixups),
                    ),
                    _ => Err(ill),
                },
                AddrMode::ZeroPageX | AddrMode::ZeroPageY => match op {
                    Some(GOperandForm::DirectIdx { value, .. }) => Ok(
                        (bytes.push(opc).push((value % 256) as u8), fixups),
                    ),
                    _ => Err(ill),
                },
                AddrMode::Packed => match op {
                    Some(GOperandForm::Direct { value, .. }) => Ok(
                        (bytes.push(opc).push((value % 256) as u8), fixups),
                    ),
                    _ => Err(ill),
                },
                AddrMode::IndirectX => match op {
                    Some(GOperandForm::IndX(v)) => Ok((bytes.push(opc).push(v), fixups)),
                    _ => Err(ill),
                },
                AddrMode::IndirectY => match op {
                    Some(GOperandForm::IndY(v)) => Ok((bytes.push(opc).push(v), fixups)),
                    _ => Err(ill),
                },
                AddrMode::Absolute | AddrMode::AbsoluteX | AddrMode::AbsoluteY => match op {
                    Some(GOperandForm::Direct { value, .. }) => Ok(
                        (
                            bytes.push(opc).push((value % 256) as u8).push((value / 256) as u8),
                            fixups,
                        ),
                    ),
                    Some(GOperandForm::DirectIdx { value, .. }) => Ok(
                        (
                            bytes.push(opc).push((value % 256) as u8).push((value / 256) as u8),
                            fixups,
                        ),
                    ),
                    Some(GOperandForm::LabelRef(name)) => Ok(
                        spec_label_abs(bytes, fixups, opc, name, labels, line),
                    ),
                    Some(GOperandForm::LabelIdx(name, _)) => Ok(
                        spec_label_abs(bytes, fixups, opc, name, labels, line),
                    ),
                    _ => Err(ill),
                },
                AddrMode::Relative => match op {
                    Some(GOperandForm::Direct { value, .. }) => spec_rel(
                        bytes,
                        fixups,
                        opc,
                        value as int,
                        pc,
                        line,
                    ),
                    Some(GOperandForm::LabelRef(name)) => match spec_lookup(labels, name) {
                        Some(a) => spec_rel(bytes, fixups, opc, a as int, pc, line),
                        None => Ok(
                            (
                                bytes.push(opc).push(0),
                                fixups.push(
                                    GFixup { position: bytes.len() as int + 1, name, width: 1, line },
                                ),
                            ),
                        ),
                    },
                    _ => Err(ill),
                },
            }
        },
    }
}

/// Every unresolved reference points at placeholder bytes inside the output.
pub open spec fn fixups_bounded(fixups: Seq<GFixup>, len: int) -> bool {
    forall|k: int|
        0 <= k < fixups.len() ==> {
            &&& (#[trigger] fixups[k]).position >= 0
            &&& (fixups[k].width == 1 || fixups[k].width == 2)
            &&& fixups[k].position + fixups[k].width <= len
        }
}

/// Emits one instruction, exactly as [`spec_emit_instr`] describes, keeping
/// every unresolved reference inside the output.
fn emit_instr(
    binary: &mut Vec<u8>,
    unresolved: &mut Vec<Fixup>,
    line: usize,
    m: Mnemonic,
    operand: &Option<OperandForm>,
    labels: &LabelTable,
) -> (r: Result<(), AsmError>)
    ensures
        match (
            r,
            spec_emit_instr(
                old(binary)@,
                view_fixups(old(unresolved)@),
                line,
                m,
                view_operand(*operand),
                labels@,
            ),
        ) {
            (Ok(u), Ok(p)) => final(binary)@ == p.0 && view_fixups(final(unresolved)@) == p.1,
            (Err(e), Err(g)) => e@ == g,
            _ => false,
        },
        r is Ok && fixups_bounded(view_fixups(old(unresolved)@), old(binary)@.len() as int)
            ==> fixups_bounded(view_fixups(final(unresolved)@), final(binary)@.len() as int),
{
    let mode = match select_mode(m, operand) {
        Err(kind) => {
            return Err(AsmError { line, kind, label: Vec::new() });
        },
        Ok(mode) => mode,
    };
    let opc = match isa::opcode_lookup(m, mode) {
        Some(o) => o,
        None => 0,
    };
    let pcm: usize = binary.len() % 0x10000;
    let illegal = AsmError { line, kind: AsmErrorKind::IllegalAddressing, label: Vec::new() };
    match mode {
        AddrMode::Implied => {
            binary.push(opc);
            Ok(())
        },
        AddrMode::Immediate => match operand {
            Some(OperandForm::Imm(v)) => {
                binary.push(opc);
                binary.push(*v);
                Ok(())
            },
            _ => Err(illegal),
        },
        AddrMode::ZeroPage => match operand {
            Some(OperandForm::Direct { value, .. }) => {
                binary.push(opc);
                binary.push((*value % 256) as u8);
                Ok(())
            },
            _ => Err(illegal),
        },
        AddrMode::ZeroPageX | AddrMode::ZeroPageY => match operand {
            Some(OperandForm::DirectIdx { value, .. }) => {
                binary.push(opc);
                binary.push((*value % 256) as u8);
                Ok(())
            },
            _ => Err(illegal),
        },
        AddrMode::Packed => match operand {
            Some(OperandForm::Direct { value, .. }) => {
                binary.push(opc);
                binary.push((*value % 256) as u8);
                Ok(())
            },
            _ => Err(illegal),
        },
        AddrMode::IndirectX => match operand {
            Some(OperandForm::IndX(v)) => {
                binary.push(opc);
                binary.push(*v);
                Ok(())
            },
            _ => Err(illegal),
        },
        AddrMode::IndirectY => match operand {
            Some(OperandForm::IndY(v)) => {
                binary.push(opc);
                binary.push(*v);
                Ok(())
            },
            _ => Err(illegal),
        },
        AddrMode::Absolute | AddrMode::AbsoluteX | AddrMode::AbsoluteY => match operand {
            Some(OperandForm::Direct { value, .. }) => {
                binary.push(opc);
                binary.push((*value % 256) as u8);
                binary.push((*value / 256) as u8);
                Ok(())
            },
            Some(OperandForm::DirectIdx { value, .. }) => {
                binary.push(opc);
                binary.push((*value % 256) as u8);
                binary.push((*value / 256) as u8);
                Ok(())
            },
            Some(OperandForm::LabelRef(name)) => {
                emit_label_abs(binary, unresolved, opc, name, labels, line);
                Ok(())
            },
            Some(OperandForm::LabelIdx(name, _)) => {
                emit_label_abs(binary, unresolved, opc, name, labels, line);
                Ok(())
            },
            _ => Err(illegal),
        },
        AddrMode::Relative => match operand {
            Some(OperandForm::Direct { value, .. }) => {
                emit_rel(binary, opc, *value, pcm, line)
            },
            Some(OperandForm::LabelRef(name)) => {
                match labels.get(name) {
                    Some(a) => emit_rel(binary, opc, a, pcm, line),
                    None => {
                        binary.push(opc);
                        let position = binary.len();
                        binary.push(0);
                        let owned = sub_bytes(name, 0, name.len());
                        proof {
                            assert(owned@ =~= name@);
                        }
                        let f = Fixup { position, name: owned, width: 1, line };
                        proof {
                            lemma_view_fixups_push(unresolved@, f);
                        }
                        unresolved.push(f);
                        Ok(())
                    },
                }
            },
            _ => Err(illegal),
        },
    }
}

/// The absolute-operand emission for a label, as [`spec_label_abs`] says.
fn emit_label_abs(
    binary: &mut Vec<u8>,
    unresolved: &mut Vec<Fixup>,
    opc: u8,
    name: &Vec<u8>,
    labels: &LabelTable,
    line: usize,
)
    ensures
        ({
            let p = spec_label_abs(
                old(binary)@,
                view_fixups(old(unresolved)@),
                opc,
                name@,
                labels@,
                line,
            );
            final(binary)@ == p.0 && view_fixups(final(unresolved)@) == p.1
        }),
        fixups_bounded(view_fixups(old(unresolved)@), old(binary)@.len() as int)
            ==> fixups_bounded(view_fixups(final(unresolved)@), final(binary)@.len() as int),
{
    binary.push(opc);
    match labels.get(name) {
        Some(a) => {
            binary.push((a % 256) as u8);
            binary.push((a / 256) as u8);
        },
        None => {
            let position = binary.len();
            binary.push(0);
            binary.push(0);
            let owned = sub_bytes(name, 0, name.len());
            proof {
                assert(owned@ =~= name@);
            }
            let f = Fixup { position, name: owned, width: 2, line };
            proof {
                lemma_view_fixups_push(unresolved@, f);
            }
            unresolved.push(f);
        },
    }
}

/// The relative-branch emission toward a known target, as [`spec_rel`] says.
fn emit_rel(binary: &mut Vec<u8>, opc: u8, target: u16, pcm: usize, line: usize) -> (r: Result<
    (),
    AsmError,
>)
    requires
        pcm < 0x10000,
    ensures
        match (r, spec_rel(old(binary)@, Seq::<GFixup>::empty(), opc, target as int, pcm as int, line)) {
            (Ok(u), Ok(p)) => final(binary)@ == p.0,
            (Err(e), Err(g)) => e@ == g && final(binary)@ == old(binary)@,
            _ => false,
        },
{
    let disp: i32 = target as i32 - (pcm as i32 + 2);
    if disp < -128 || disp > 127 {
        return Err(AsmError { line, kind: AsmErrorKind::BranchOutOfRange, label: Vec::new() });
    }
    let byte: u8 = if disp < 0 {
        (disp + 256) as u8
    } else {
        disp as u8
    };
    binary.push(opc);
    binary.push(byte);
    Ok(())
}

/// Pass two over the items: label definitions emit nothing, instructions
/// emit their encoding in order.
pub open spec fn spec_pass2_from(
    items: Seq<GAsmItem>,
    i: int,
    bytes: Seq<u8>,
    fixups: Seq<GFixup>,
    labels: Seq<(Seq<u8>, u16)>,
) -> Result<(Seq<u8>, Seq<GFixup>), GAsmError>
    decreases items.len() - i,
{
    if i < 0 || i >= items.len() {
        Ok((bytes, fixups))
    } else {
        match items[i] {
            GAsmItem::LabelDef { .. } => spec_pass2_from(items, i + 1, bytes, fixups, labels),
            GAsmItem::Instr { line, m, operand } => match spec_emit_instr(
                bytes,
                fixups,
                line,
                m,
                operand,
                labels,
            ) {
                Err(e) => Err(e),
                Ok(p) => spec_pass2_from(items, i + 1, p.0, p.1, labels),
            },
        }
    }
}

pub open spec fn spec_pass2(items: Seq<GAsmItem>, labels: Seq<(Seq<u8>, u16)>) -> Result<
    (Seq<u8>, Seq<GFixup>),
    GAsmError,
> {
    spec_pass2_from(items, 0, Seq::empty(), Seq::empty(), labels)
}

/// Runs pass two, exactly as [`spec_pass2`] describes.
fn pass2(items: &Vec<AsmItem>, labels: &LabelTable) -> (r: Result<(Vec<u8>, Vec<Fixup>), AsmError>)
    ensures
        match (r, spec_pass2(view_items(items@), labels@)) {
            (Ok(p), Ok(gp)) => p.0@ == gp.0 && view_fixups(p.1@) == gp.1 && fixups_bounded(
                gp.1,
                gp.0.len() as int,
            ),
            (Err(e), Err(g)) => e@ == g,
            _ => false,
        },
{
    let ghost gitems = view_items(items@);
    let mut binary: Vec<u8> = Vec::new();
    let mut unresolved: Vec<Fixup> = Vec::new();
    proof {
        assert(view_fixups(unresolved@) =~= Seq::<GFixup>::empty());
    }
    let mut i: usize = 0;
    while i < items.len()
        invariant
            i <= items@.len(),
            gitems == view_items(items@),
            gitems.len() == items@.len(),
            spec_pass2(gitems, labels@) == spec_pass2_from(
                gitems,
                i as int,
                binary@,
                view_fixups(unresolved@),
                labels@,
            ),
            fixups_bounded(view_fixups(unresolved@), binary@.len() as int),
        decreases items@.len() - i,
    {
        proof {
            assert(gitems[i as int] == items@[i as int]@);
        }
        match &items[i] {
            AsmItem::LabelDef { .. } => {},
            AsmItem::Instr { line, m, operand } => {
                match emit_instr(&mut binary, &mut unresolved, *line, *m, operand, labels) {
                    Err(e) => {
                        return Err(e);
                    },
                    Ok(()) => {},
                }
            },
        }
        i = i + 1;
    }
    Ok((binary, unresolved))
}

/// The resolution walk: each unresolved reference is patched with its
/// label's address, or reported. A width-1 entry takes the signed
/// displacement from the byte after it; width 2 takes the address in
/// little-endian order.
pub open spec fn spec_resolve_from(
    bytes: Seq<u8>,
    fixups: Seq<GFixup>,
    i: int,
    labels: Seq<(Seq<u8>, u16)>,
) -> Result<Seq<u8>, GAsmError>
    decreases fixups.len() - i,
{
    if i < 0 || i >= fixups.len() {
        Ok(bytes)
    } else {
        let f = fixups[i];
        match spec_lookup(labels, f.name) {
            None => Err(GAsmError { line: f.line, kind: AsmErrorKind::UndefinedLabel, label: f.name }),
            Some(a) => if f.width == 1 {
                let disp = a - ((f.position + 1) % 0x10000);
                if disp < -128 || disp > 127 {
                    Err(
                        GAsmError {
                            line: f.line,
                            kind: AsmErrorKind::BranchOutOfRange,
                            label: Seq::empty(),
                        },
                    )
                } else {
                    spec_resolve_from(
                        bytes.update(f.position, crate::cpu::wrap8(disp)),
                        fixups,
                        i + 1,
                        labels,
                    )
                }
            } else {
                spec_resolve_from(
                    bytes.update(f.position, (a % 256) as u8).update(
                        f.position + 1,
                        (a / 256) as u8,
                    ),
                    fixups,
                    i + 1,
                    labels,
                )
            },
        }
    }
}

/// Runs the resolution walk, exactly as [`spec_resolve_from`] describes.
fn resolve(binary: &mut Vec<u8>, fixups: &Vec<Fixup>, labels: &LabelTable) -> (r: Result<
    (),
    AsmError,
>)
    requires
        fixups_bounded(view_fixups(fixups@), old(binary)@.len() as int),
    ensures
        match (r, spec_resolve_from(old(binary)@, view_fixups(fixups@), 0, labels@)) {
            (Ok(u), Ok(gb)) => final(binary)@ == gb,
            (Err(e), Err(g)) => e@ == g,
            _ => false,
        },
{
    let ghost gf = view_fixups(fixups@);
    let mut i: usize = 0;
    while i < fixups.len()
        invariant
            i <= fixups@.len(),
            gf == view_fixups(fixups@),
            gf.len() == fixups@.len(),
            binary@.len() == old(binary)@.len(),
            fixups_bounded(gf, binary@.len() as int),
            spec_resolve_from(old(binary)@, gf, 0, labels@) == spec_resolve_from(
                binary@,
                gf,
                i as int,
                labels@,
            ),
        decreases fixups@.len() - i,
    {
        proof {
            assert(gf[i as int] == fixups@[i as int]@);
            assert(gf[i as int].position + gf[i as int].width <= binary@.len() as int);
        }
        let f = &fixups[i];
        let blen = binary.len();
        proof {
            assert(f@.position + f@.width <= blen as int);
        }
        match labels.get(&f.name) {
            None => {
                let owned = sub_bytes(&f.name, 0, f.name.len());
                proof {
                    assert(owned@ =~= f.name@);
                }
                return Err(
                    AsmError { line: f.line, kind: AsmErrorKind::UndefinedLabel, label: owned },
                );
            },
            Some(a) => {
                if f.width == 1 {
                    let target_pc: usize = (f.position + 1) % 0x10000;
                    let disp: i32 = a as i32 - target_pc as i32;
                    if disp < -128 || disp > 127 {
                        return Err(
                            AsmError {
                                line: f.line,
                                kind: AsmErrorKind::BranchOutOfRange,
                                label: Vec::new(),
                            },
                        );
                    }
                    let byte: u8 = if disp < 0 {
                        (disp + 256) as u8
                    } else {
                        disp as u8
                    };
                    binary[f.position] = byte;
                } else {
                    binary[f.position] = (a % 256) as u8;
                    binary[f.position + 1] = (a / 256) as u8;
                }
            },
        }
        i = i + 1;
    }
    Ok(())
}

/// The spec-level assembler: parse, size and collect labels, emit, resolve.
/// [`compile`] is proved to return exactly this.
pub open spec fn spec_assemble(src: Seq<u8>) -> Result<Seq<u8>, GAsmError> {
    match spec_parse(src) {
        Err(e) => Err(e),
        Ok(items) => match spec_pass1(items) {
            Err(e) => Err(e),
            Ok(labels) => match spec_pass2(items, labels) {
                Err(e) => Err(e),
                Ok(p) => spec_resolve_from(p.0, p.1, 0, labels),
            },
        },
    }
}

/// Assembles source text into a flat binary, exactly as [`spec_assemble`]
/// describes; the first error aborts the whole assembly.
pub fn compile(source: &str) -> (r: Result<Vec<u8>, AsmError>)
    ensures
        match (r, spec_assemble(source.spec_bytes())) {
            (Ok(b), Ok(gb)) => b@ == gb,
            (Err(e), Err(g)) => e@ == g,
            _ => false,
        },
{
    let src = source.as_bytes_vec();
    let items = match parse_source(&src) {
        Err(e) => {
            return Err(e);
        },
        Ok(v) => v,
    };
    let labels = match pass1(&items) {
        Err(e) => {
            return Err(e);
        },
        Ok(t) => t,
    };
    let (mut binary, unresolved) = match pass2(&items, &labels) {
        Err(e) => {
            return Err(e);
        },
        Ok(p) => p,
    };
    match resolve(&mut binary, &unresolved, &labels) {
        Err(e) => {
            return Err(e);
        },
        Ok(()) => {},
    }
    Ok(binary)
}

/// The uppercase hex digit of a nibble.
pub open spec fn spec_hex(n: int) -> u8 {
    if n < 10 {
        (48 + n) as u8
    } else {
        (55 + n) as u8
    }
}

fn hex_digit(n: u16) -> (r: u8)
    requires
        n < 16,
    ensures
        r == spec_hex(n as int),
{
    if n < 10 {
        48 + n as u8
    } else {
        55 + n as u8
    }
}

/// The three letters of a mnemonic's canonical (uppercase) name.
pub open spec fn spec_mnemonic_name(m: Mnemonic) -> Seq<u8> {
    match m {
        Mnemonic::LDA => seq![76u8, 68u8, 65u8],
        Mnemonic::LDX => seq![76u8, 68u8, 88u8],
        Mnemonic::LDY => seq![76u8, 68u8, 89u8],
        Mnemonic::STA => seq![83u8, 84u8, 65u8],
        Mnemonic::STX => seq![83u8, 84u8, 88u8],
        Mnemonic::STY => seq![83u8, 84u8, 89u8],
        Mnemonic::ADC => seq![65u8, 68u8, 67u8],
        Mnemonic::SBC => seq![83u8, 66u8, 67u8],
        Mnemonic::AND => seq![65u8, 78u8, 68u8],
        Mnemonic::ORA => seq![79u8, 82u8, 65u8],
        Mnemonic::EOR => seq![69u8, 79u8, 82u8],
        Mnemonic::CMP => seq![67u8, 77u8, 80u8],
        Mnemonic::CPX => seq![67u8, 80u8, 88u8],
        Mnemonic::CPY => seq![67u8, 80u8, 89u8],
        Mnemonic::INC => seq![73u8, 78u8, 67u8],
        Mnemonic::DEC => seq![68u8, 69u8, 67u8],
        Mnemonic::TAX => seq![84u8, 65u8, 88u8],
        Mnemonic::TAY => seq![84u8, 65u8, 89u8],
        Mnemonic::TXA => seq![84u8, 88u8, 65u8],
        Mnemonic::TYA => seq![84u8, 89u8, 65u8],
        Mnemonic::INX => seq![73u8, 78u8, 88u8],
        Mnemonic::INY => seq![73u8, 78u8, 89u8],
        Mnemonic::DEX => seq![68u8, 69u8, 88u8],
        Mnemonic::DEY => seq![68u8, 69u8, 89u8],
        Mnemonic::JMP => seq![74u8, 77u8, 80u8],
        Mnemonic::JSR => seq![74u8, 83u8, 82u8],
        Mnemonic::RTS => seq![82u8, 84u8, 83u8],
        Mnemonic::BEQ => seq![66u8, 69u8, 81u8],
        Mnemonic::BNE => seq![66u8, 78u8, 69u8],
        Mnemonic::BCS => seq![66u8, 67u8, 83u8],
        Mnemonic::BCC => seq![66u8, 67u8, 67u8],
        Mnemonic::BMI => seq![66u8, 77u8, 73u8],
        Mnemonic::BPL => seq![66u8, 80u8, 76u8],
        Mnemonic::NOP => seq![78u8, 79u8, 80u8],
        Mnemonic::BRK => seq![66u8, 82u8, 75u8],
        Mnemonic::HLT => seq![72u8, 76u8, 84u8],
        Mnemonic::DBG => seq![68u8, 66u8, 71u8],
        Mnemonic::SND => seq![83u8, 78u8, 68u8],
    }
}

/// Law: every canonical mnemonic name parses back to its mnemonic.
pub proof fn lemma_mnemonic_name_round_trip(m: Mnemonic)
    ensures
        spec_mnemonic_of(spec_mnemonic_name(m)) == Some(m),
{
}

proof fn lemma_hex_digit_parses(n: int)
    requires
        0 <= n < 16,
    ensures
        spec_digit_val(spec_hex(n)) == Some(n),
{
}

proof fn lemma_hex2_parses(v: u16)
    requires
        v <= 255,
    ensures
        spec_parse_num(seq![36u8, spec_hex(v as int / 16), spec_hex(v as int % 16)]) == Some(v),
{
    let s = seq![36u8, spec_hex(v as int / 16), spec_hex(v as int % 16)];
    let digits = s.subrange(1, 3);
    assert(digits =~= seq![spec_hex(v as int / 16), spec_hex(v as int % 16)]);
    assert(digits.drop_last() =~= seq![spec_hex(v as int / 16)]);
    assert(digits.drop_last().drop_last() =~= Seq::<u8>::empty());
    lemma_hex_digit_parses(v as int / 16);
    lemma_hex_digit_parses(v as int % 16);
    assert(spec_parse_digits(digits.drop_last().drop_last(), 16) == Some(0int));
    assert(spec_parse_digits(digits.drop_last(), 16) == Some(v as int / 16));
    assert((v as int / 16) * 16 + v as int % 16 == v as int) by {
        vstd::arithmetic::div_mod::lemma_fundamental_div_mod(v as int, 16);
    };
    assert(spec_parse_digits(digits, 16) == Some(v as int));
}

proof fn lemma_hex4_parses(v: u16)
    ensures
        spec_parse_num(
            seq![
                36u8,
                spec_hex(v as int / 4096 % 16),
                spec_hex(v as int / 256 % 16),
                spec_hex(v as int / 16 % 16),
                spec_hex(v as int % 16),
            ],
        ) == Some(v),
{
    let x = v as int;
    let s = seq![
        36u8,
        spec_hex(x / 4096 % 16),
        spec_hex(x / 256 % 16),
        spec_hex(x / 16 % 16),
        spec_hex(x % 16),
    ];
    let digits = s.subrange(1, 5);
    assert(digits =~= seq![
        spec_hex(x / 4096 % 16),
        spec_hex(x / 256 % 16),
        spec_hex(x / 16 % 16),
        spec_hex(x % 16),
    ]);
    let d3 = digits.drop_last();
    let d2 = d3.drop_last();
    let d1 = d2.drop_last();
    assert(d1.drop_last() =~= Seq::<u8>::empty());
    lemma_hex_digit_parses(x / 4096 % 16);
    lemma_hex_digit_parses(x / 256 % 16);
    lemma_hex_digit_parses(x / 16 % 16);
    lemma_hex_digit_parses(x % 16);
    assert((v / 4096) % 16 == v / 4096 && (v / 4096) * 16 + (v / 256) % 16 == v / 256 && (v
        / 256) * 16 + (v / 16) % 16 == v / 16 && (v / 16) * 16 + v % 16 == v && v / 256 <= 255
        && v / 16 <= 4095) by (bit_vector);
    assert(spec_parse_digits(d1.drop_last(), 16) == Some(0int));
    assert(spec_parse_digits(d1, 16) == Some(x / 4096));
    assert(spec_parse_digits(d2, 16) == Some(x / 256));
    assert(spec_parse_digits(d3, 16) == Some(x / 16));
    assert(spec_parse_digits(digits, 16) == Some(x));
}

proof fn lemma_hex_is_plain(n: int)
    requires
        0 <= n < 16,
    ensures
        spec_hex(n) != 44,
        48 <= spec_hex(n) <= 70,
{
}

proof fn lemma_no_comma(s: Seq<u8>, i: int)
    requires
        0 <= i <= s.len(),
        forall|j: int| i <= j < s.len() ==> s[j] != 44,
    ensures
        spec_comma_pos(s, i) == s.len(),
    decreases s.len() - i,
{
    if i < s.len() {
        lemma_no_comma(s, i + 1);
    }
}

proof fn lemma_comma_at(s: Seq<u8>, i: int, k: int)
    requires
        0 <= i <= k < s.len(),
        s[k] == 44,
        forall|j: int| i <= j < k ==> s[j] != 44,
    ensures
        spec_comma_pos(s, i) == k,
    decreases k - i,
{
    if i < k {
        lemma_comma_at(s, i + 1, k);
    }
}

/// The canonical text of one operand: `$HH` in zero page, `$HHHH` absolute,
/// `#$HH` immediate, the parenthesised indirect forms, and for a branch the
/// absolute target address the displacement reaches from `addr`.
pub open spec fn spec_render_operand(i: isa::Instruction, addr: u16) -> Seq<u8> {
    let v = i.operand as int;
    let b1 = seq![36u8, spec_hex(v / 16 % 16), spec_hex(v % 16)];
    let b2 = seq![
        36u8,
        spec_hex(v / 4096 % 16),
        spec_hex(v / 256 % 16),
        spec_hex(v / 16 % 16),
        spec_hex(v % 16),
    ];
    match i.mode {
        AddrMode::Implied => Seq::empty(),
        AddrMode::Immediate => seq![35u8] + b1,
        AddrMode::ZeroPage => b1,
        AddrMode::ZeroPageX => b1 + seq![44u8, 88u8],
        AddrMode::ZeroPageY => b1 + seq![44u8, 89u8],
        AddrMode::Absolute => b2,
        AddrMode::AbsoluteX => b2 + seq![44u8, 88u8],
        AddrMode::AbsoluteY => b2 + seq![44u8, 89u8],
        AddrMode::IndirectX => seq![40u8] + b1 + seq![44u8, 88u8, 41u8],
        AddrMode::IndirectY => seq![40u8] + b1 + seq![41u8, 44u8, 89u8],
        AddrMode::Packed => b1,
        AddrMode::Relative => {
            let target = crate::cpu::wrap16(
                addr + 2 + crate::cpu::sign_extend((i.operand % 256) as u8),
            ) as int;
            seq![
                36u8,
                spec_hex(target / 4096 % 16),
                spec_hex(target / 256 % 16),
                spec_hex(target / 16 % 16),
                spec_hex(target % 16),
            ]
        },
    }
}

/// One canonical source line: the mnemonic, one space and the operand where
/// there is one, and a line feed.
pub open spec fn spec_render_line(i: isa::Instruction, addr: u16) -> Seq<u8> {
    let op = spec_render_operand(i, addr);
    if op.len() == 0 {
        spec_mnemonic_name(i.m) + seq![10u8]
    } else {
        spec_mnemonic_name(i.m) + seq![32u8] + op + seq![10u8]
    }
}

/// The canonical source of a whole instruction sequence, tracking each
/// instruction's address.
pub open spec fn spec_render_from(
    instrs: Seq<isa::Instruction>,
    k: int,
    addr: u16,
    acc: Seq<u8>,
) -> Seq<u8>
    decreases instrs.len() - k,
{
    if k < 0 || k >= instrs.len() {
        acc
    } else {
        spec_render_from(
            instrs,
            k + 1,
            crate::cpu::wrap16(addr + isa::spec_instr_len(instrs[k].mode)),
            acc + spec_render_line(instrs[k], addr),
        )
    }
}

pub open spec fn spec_render(instrs: Seq<isa::Instruction>) -> Seq<u8> {
    spec_render_from(instrs, 0, 0, Seq::empty())
}

/// The numeric value a parsed operand form carries; label forms carry none.
pub open spec fn operand_value_of(f: GOperandForm) -> int {
    match f {
        GOperandForm::Imm(v) => v as int,
        GOperandForm::Direct { value, .. } => value as int,
        GOperandForm::DirectIdx { value, .. } => value as int,
        GOperandForm::IndX(v) => v as int,
        GOperandForm::IndY(v) => v as int,
        _ => -1,
    }
}

proof fn lemma_nibbles(v: int)
    requires
        0 <= v < 256,
    ensures
        v / 16 % 16 == v / 16,
        0 <= v % 16 < 16,
        0 <= v / 16 < 16,
{
    vstd::arithmetic::div_mod::lemma_small_mod((v / 16) as nat, 16);
}

/// Law: every canonically rendered operand parses back to a form that the
/// mode selector maps to the instruction's own addressing mode, and (except
/// for a branch, whose text names the target address rather than the raw
/// displacement byte) to the instruction's own operand value.
#[verifier::rlimit(60)]
pub proof fn lemma_render_operand_parses(i: isa::Instruction, addr: u16)
    requires
        isa::wf_instruction(i),
        i.mode != AddrMode::Implied,
    ensures
        ({
            let parsed = spec_parse_operand(spec_render_operand(i, addr));
            &&& parsed is Ok
            &&& spec_select_mode(i.m, Some(parsed->Ok_0)) == Ok::<AddrMode, AsmErrorKind>(i.mode)
            &&& i.mode != AddrMode::Relative ==> operand_value_of(parsed->Ok_0) == i.operand as int
        }),
{
    let o = spec_render_operand(i, addr);
    let v = i.operand as int;
    let b1 = seq![36u8, spec_hex(v / 16 % 16), spec_hex(v % 16)];
    let b2 = seq![
        36u8,
        spec_hex(v / 4096 % 16),
        spec_hex(v / 256 % 16),
        spec_hex(v / 16 % 16),
        spec_hex(v % 16),
    ];
    match i.mode {
        AddrMode::Implied => {},
        AddrMode::Immediate => {
            lemma_nibbles(v);
            assert(o.subrange(1, 4) =~= b1);
            lemma_hex2_parses(i.operand);
        },
        AddrMode::ZeroPage | AddrMode::Packed => {
            lemma_nibbles(v);
            lemma_hex2_parses(i.operand);
            assert forall|j: int| 0 <= j < o.len() implies o[j] != 44 by {
                lemma_hex_is_plain(v / 16 % 16);
                lemma_hex_is_plain(v % 16);
            }
            lemma_no_comma(o, 0);
        },
        AddrMode::ZeroPageX | AddrMode::ZeroPageY => {
            lemma_nibbles(v);
            lemma_hex2_parses(i.operand);
            lemma_hex_is_plain(v / 16 % 16);
            lemma_hex_is_plain(v % 16);
            lemma_comma_at(o, 0, 3);
            assert(o.take(3) =~= b1);
            assert(o.subrange(4, 5) =~= seq![o[4]]);
        },
        AddrMode::Absolute => {
            lemma_hex4_parses(i.operand);
            assert forall|j: int| 0 <= j < o.len() implies o[j] != 44 by {
                lemma_hex_is_plain(v / 4096 % 16);
                lemma_hex_is_plain(v / 256 % 16);
                lemma_hex_is_plain(v / 16 % 16);
                lemma_hex_is_plain(v % 16);
            }
            lemma_no_comma(o, 0);
        },
        AddrMode::AbsoluteX | AddrMode::AbsoluteY => {
            lemma_hex4_parses(i.operand);
            lemma_hex_is_plain(v / 4096 % 16);
            lemma_hex_is_plain(v / 256 % 16);
            lemma_hex_is_plain(v / 16 % 16);
            lemma_hex_is_plain(v % 16);
            lemma_comma_at(o, 0, 5);
            assert(o.take(5) =~= b2);
            assert(o.subrange(6, 7) =~= seq![o[6]]);
        },
        AddrMode::IndirectX => {
            lemma_nibbles(v);
            lemma_hex2_parses(i.operand);
            assert(o.subrange(1, 4) =~= b1);
        },
        AddrMode::IndirectY => {
            lemma_nibbles(v);
            lemma_hex2_parses(i.operand);
            assert(o.subrange(1, 4) =~= b1);
        },
        AddrMode::Relative => {
            let target = crate::cpu::wrap16(
                addr + 2 + crate::cpu::sign_extend((i.operand % 256) as u8),
            );
            let t = target as int;
            lemma_hex4_parses(target);
            assert forall|j: int| 0 <= j < o.len() implies o[j] != 44 by {
                lemma_hex_is_plain(t / 4096 % 16);
                lemma_hex_is_plain(t / 256 % 16);
                lemma_hex_is_plain(t / 16 % 16);
                lemma_hex_is_plain(t % 16);
            }
            lemma_no_comma(o, 0);
        },
    }
}

fn render_operand(i: &isa::Instruction, addr: u16, out: &mut Vec<u8>)
    ensures
        final(out)@ == old(out)@ + spec_render_operand(*i, addr),
{
    let ghost pre = out@;
    let v = i.operand;
    match i.mode {
        AddrMode::Implied => {
            proof {
                assert(out@ =~= pre + spec_render_operand(*i, addr));
            }
        },
        AddrMode::Relative => {
            let off = (v % 256) as u8;
            let delta: u16 = if off < 0x80 {
                off as u16
            } else {
                off as u16 + 0xFF00
            };
            let target = addr.wrapping_add(2).wrapping_add(delta);
            out.push(36);
            out.push(hex_digit(target / 4096 % 16));
            out.push(hex_digit(target / 256 % 16));
            out.push(hex_digit(target / 16 % 16));
            out.push(hex_digit(target % 16));
            proof {
                assert(crate::cpu::wrap16(addr + 2 + crate::cpu::sign_extend(off)) == target);
                assert(out@ =~= pre + spec_render_operand(*i, addr));
            }
        },
        AddrMode::Absolute | AddrMode::AbsoluteX | AddrMode::AbsoluteY => {
            out.push(36);
            out.push(hex_digit(v / 4096 % 16));
            out.push(hex_digit(v / 256 % 16));
            out.push(hex_digit(v / 16 % 16));
            out.push(hex_digit(v % 16));
            match i.mode {
                AddrMode::AbsoluteX => {
                    out.push(44);
                    out.push(88);
                },
                AddrMode::AbsoluteY => {
                    out.push(44);
                    out.push(89);
                },
                _ => {},
            }
            proof {
                assert(out@ =~= pre + spec_render_operand(*i, addr));
            }
        },
        AddrMode::Immediate => {
            out.push(35);
            out.push(36);
            out.push(hex_digit(v / 16 % 16));
            out.push(hex_digit(v % 16));
            proof {
                assert(out@ =~= pre + spec_render_operand(*i, addr));
            }
        },
        AddrMode::IndirectX => {
            out.push(40);
            out.push(36);
            out.push(hex_digit(v / 16 % 16));
            out.push(hex_digit(v % 16));
            out.push(44);
            out.push(88);
            out.push(41);
            proof {
                assert(out@ =~= pre + spec_render_operand(*i, addr));
            }
        },
        AddrMode::IndirectY => {
            out.push(40);
            out.push(36);
            out.push(hex_digit(v / 16 % 16));
            out.push(hex_digit(v % 16));
            out.push(41);
            out.push(44);
            out.push(89);
            proof {
                assert(out@ =~= pre + spec_render_operand(*i, addr));
            }
        },
        _ => {
            out.push(36);
            out.push(hex_digit(v / 16 % 16));
            out.push(hex_digit(v % 16));
            match i.mode {
                AddrMode::ZeroPageX => {
                    out.push(44);
                    out.push(88);
                },
                AddrMode::ZeroPageY => {
                    out.push(44);
                    out.push(89);
                },
                _ => {},
            }
            proof {
                assert(out@ =~= pre + spec_render_operand(*i, addr));
            }
        },
    }
}

fn render_mnemonic(m: Mnemonic, out: &mut Vec<u8>)
    ensures
        final(out)@ == old(out)@ + spec_mnemonic_name(m),
{
    let ghost pre = out@;
    let (a, b, c): (u8, u8, u8) = match m {
        Mnemonic::LDA => (76, 68, 65),
        Mnemonic::LDX => (76, 68, 88),
        Mnemonic::LDY => (76, 68, 89),
        Mnemonic::STA => (83, 84, 65),
        Mnemonic::STX => (83, 84, 88),
        Mnemonic::STY => (83, 84, 89),
        Mnemonic::ADC => (65, 68, 67),
        Mnemonic::SBC => (83, 66, 67),
        Mnemonic::AND => (65, 78, 68),
        Mnemonic::ORA => (79, 82, 65),
        Mnemonic::EOR => (69, 79, 82),
        Mnemonic::CMP => (67, 77, 80),
        Mnemonic::CPX => (67, 80, 88),
        Mnemonic::CPY => (67, 80, 89),
        Mnemonic::INC => (73, 78, 67),
        Mnemonic::DEC => (68, 69, 67),
        Mnemonic::TAX => (84, 65, 88),
        Mnemonic::TAY => (84, 65, 89),
        Mnemonic::TXA => (84, 88, 65),
        Mnemonic::TYA => (84, 89, 65),
        Mnemonic::INX => (73, 78, 88),
        Mnemonic::INY => (73, 78, 89),
        Mnemonic::DEX => (68, 69, 88),
        Mnemonic::DEY => (68, 69, 89),
        Mnemonic::JMP => (74, 77, 80),
        Mnemonic::JSR => (74, 83, 82),
        Mnemonic::RTS => (82, 84, 83),
        Mnemonic::BEQ => (66, 69, 81),
        Mnemonic::BNE => (66, 78, 69),
        Mnemonic::BCS => (66, 67, 83),
        Mnemonic::BCC => (66, 67, 67),
        Mnemonic::BMI => (66, 77, 73),
        Mnemonic::BPL => (66, 80, 76),
        Mnemonic::NOP => (78, 79, 80),
        Mnemonic::BRK => (66, 82, 75),
        Mnemonic::HLT => (72, 76, 84),
        Mnemonic::DBG => (68, 66, 71),
        Mnemonic::SND => (83, 78, 68),
    };
    out.push(a);
    out.push(b);
    out.push(c);
    proof {
        assert(out@ =~= pre + spec_mnemonic_name(m));
    }
}

/// Renders an instruction sequence as canonical source text, exactly as
/// [`spec_render`] describes: uppercase mnemonics, `$` hex numerals whose
/// width names the addressing mode, branch targets as absolute addresses.
pub fn render_program(instrs: &Vec<isa::Instruction>) -> (r: Vec<u8>)
    ensures
        r@ == spec_render(instrs@),
{
    let mut out: Vec<u8> = Vec::new();
    let mut addr: u16 = 0;
    let mut k: usize = 0;
    while k < instrs.len()
        invariant
            k <= instrs@.len(),
            spec_render(instrs@) == spec_render_from(instrs@, k as int, addr, out@),
        decreases instrs@.len() - k,
    {
        let ghost pre = out@;
        let i = instrs[k];
        render_mnemonic(i.m, &mut out);
        let before_op = out.len();
        out.push(32);
        render_operand(&i, addr, &mut out);
        if out.len() == before_op + 1 {
            // no operand text: drop the separating space again
            let _ = out.pop();
            proof {
                assert(spec_render_operand(i, addr).len() == 0);
                assert(out@ =~= pre + spec_render_line(i, addr).drop_last());
                assert((pre + spec_render_line(i, addr).drop_last()).push(10u8) =~= pre
                    + spec_render_line(i, addr));
            }
        } else {
            proof {
                assert(spec_render_operand(i, addr).len() > 0);
                assert((out@).push(10u8) =~= pre + spec_render_line(i, addr));
            }
        }
        out.push(10);
        addr = addr.wrapping_add(isa::instr_len(i.mode));
        k = k + 1;
    }
    out
}

/// Reads bytes back as canonical source text: the instruction stream of
/// [`disassemble`](crate::isa::disassemble), rendered by [`render_program`].
/// `None` on an unknown opcode or a truncated operand.
pub fn disassemble_source(bytes: &Vec<u8>) -> (r: Option<Vec<u8>>)
    ensures
        match (r, isa::spec_disassemble_from(bytes@, 0)) {
            (Some(v), Some(g)) => v@ == spec_render(g),
            (None, None) => true,
            _ => false,
        },
{
    match isa::disassemble(bytes) {
        None => None,
        Some(instrs) => Some(render_program(&instrs)),
    }
}

/// One instruction compiled from its operand text onto the output state.
pub open spec fn spec_compile_mn(
    bytes: Seq<u8>,
    fixups: Seq<GFixup>,
    m: Mnemonic,
    optext: Seq<u8>,
    labels: Seq<(Seq<u8>, u16)>,
    line: usize,
) -> Result<(Seq<u8>, Seq<GFixup>), GAsmError> {
    match spec_parse_operand(optext) {
        Err(kind) => Err(GAsmError { line, kind, label: Seq::empty() }),
        Ok(f) => spec_emit_instr(bytes, fixups, line, m, Some(f), labels),
    }
}

/// The contract every per-mnemonic compile function meets: its result and
/// the new output state are exactly what [`spec_compile_mn`] gives.
pub open spec fn compiles_to(
    r: Result<(), AsmError>,
    pre_b: Seq<u8>,
    pre_f: Seq<GFixup>,
    post_b: Seq<u8>,
    post_f: Seq<GFixup>,
    m: Mnemonic,
    optext: Seq<u8>,
    labels: Seq<(Seq<u8>, u16)>,
    line: usize,
) -> bool {
    match (r, spec_compile_mn(pre_b, pre_f, m, optext, labels, line)) {
        (Ok(u), Ok(p)) => post_b == p.0 && post_f == p.1,
        (Err(e), Err(g)) => e@ == g,
        _ => false,
    }
}

fn compile_operand_instr(
    binary: &mut Vec<u8>,
    unresolved: &mut Vec<Fixup>,
    m: Mnemonic,
    operand: &str,
    labels: &LabelTable,
    line_num: usize,
) -> (r: Result<(), AsmError>)
    ensures
        compiles_to(
            r,
            old(binary)@,
            view_fixups(old(unresolved)@),
            final(binary)@,
            view_fixups(final(unresolved)@),
            m,
            operand.spec_bytes(),
            labels@,
            line_num,
        ),
{
    let ob = operand.as_bytes_vec();
    match parse_operand(&ob) {
        Err(kind) => Err(AsmError { line: line_num, kind, label: Vec::new() }),
        Ok(f) => {
            let op = Some(f);
            emit_instr(binary, unresolved, line_num, m, &op, labels)
        },
    }
}

/// Parses a numeral operand, reporting a malformed literal with its line.
pub fn parse_value(value_str: &str, line_num: usize) -> (r: Result<u16, AsmError>)
    ensures
        match (r, spec_parse_num(value_str.spec_bytes())) {
            (Ok(v), Some(gv)) => v == gv,
            (Err(e), None) => e@ == (GAsmError {
                line: line_num,
                kind: AsmErrorKind::MalformedOperand,
                label: Seq::empty(),
            }),
            _ => false,
        },
{
    let b = value_str.as_bytes_vec();
    match parse_number(&b) {
        Some(v) => Ok(v),
        None => Err(
            AsmError { line: line_num, kind: AsmErrorKind::MalformedOperand, label: Vec::new() },
        ),
    }
}

/// Parses a numeral and appends it: one byte (rejecting values over 255) or
/// two bytes little-endian.
pub fn parse_and_push_value(
    binary: &mut Vec<u8>,
    value_str: &str,
    num_bytes: usize,
    line_num: usize,
) -> (r: Result<(), AsmError>)
    ensures
        match (r, spec_parse_num(value_str.spec_bytes())) {
            (Ok(u), Some(v)) => if num_bytes == 1 {
                v <= 255 && final(binary)@ == old(binary)@.push((v % 256) as u8)
            } else {
                final(binary)@ == old(binary)@.push((v % 256) as u8).push((v / 256) as u8)
            },
            (Err(e), Some(v)) => num_bytes == 1 && v > 255 && final(binary)@ == old(binary)@ && e@
                == (GAsmError {
                line: line_num,
                kind: AsmErrorKind::ValueOutOfRange,
                label: Seq::empty(),
            }),
            (Err(e), None) => final(binary)@ == old(binary)@ && e@ == (GAsmError {
                line: line_num,
                kind: AsmErrorKind::MalformedOperand,
                label: Seq::empty(),
            }),
            _ => false,
        },
{
    let b = value_str.as_bytes_vec();
    let value = match parse_number(&b) {
        Some(v) => v,
        None => {
            return Err(
                AsmError {
                    line: line_num,
                    kind: AsmErrorKind::MalformedOperand,
                    label: Vec::new(),
                },
            );
        },
    };
    if num_bytes == 1 {
        if value > 0xFF {
            return Err(
                AsmError {
                    line: line_num,
                    kind: AsmErrorKind::ValueOutOfRange,
                    label: Vec::new(),
                },
            );
        }
        binary.push((value % 256) as u8);
    } else {
        binary.push((value % 256) as u8);
        binary.push((value / 256) as u8);
    }
    Ok(())
}

/// The encoded size of an instruction, determined from the mnemonic and the
/// operand's textual form.
pub open spec fn spec_instruction_size(mn: Seq<u8>, op: Seq<u8>) -> Result<u16, AsmErrorKind> {
    match spec_mnemonic_of(mn) {
        None => Err(AsmErrorKind::UnknownMnemonic),
        Some(m) => if spec_is_implied(m) {
            Ok(1)
        } else {
            match spec_parse_operand(op) {
                Err(k) => Err(k),
                Ok(f) => match spec_select_mode(m, Some(f)) {
                    Err(k) => Err(k),
                    Ok(mode) => Ok(isa::spec_instr_len(mode)),
                },
            }
        },
    }
}

/// Sizes one instruction, exactly as [`spec_instruction_size`] describes.
/// Pass one and pass two both go through [`spec_select_mode`], so the sizes
/// counted here always agree with the bytes pass two emits.
pub fn get_instruction_size(instr: &str, operand: &str) -> (r: Result<u16, AsmErrorKind>)
    ensures
        r == spec_instruction_size(instr.spec_bytes(), operand.spec_bytes()),
{
    let mb = instr.as_bytes_vec();
    let m = match mnemonic_of(&mb) {
        None => {
            return Err(AsmErrorKind::UnknownMnemonic);
        },
        Some(m) => m,
    };
    if is_implied(m) {
        return Ok(1);
    }
    let ob = operand.as_bytes_vec();
    let f = match parse_operand(&ob) {
        Err(k) => {
            return Err(k);
        },
        Ok(f) => f,
    };
    let op = Some(f);
    match select_mode(m, &op) {
        Err(k) => Err(k),
        Ok(mode) => Ok(isa::instr_len(mode)),
    }
}

/// Parses one line and appends its items, exactly as [`spec_parse_line`]
/// describes. On an error the items pushed so far are abandoned by the
/// caller together with the whole assembly.
fn parse_line_exec(line: &Vec<u8>, lineno: usize, items: &mut Vec<AsmItem>) -> (r: Result<
    (),
    AsmError,
>)
    ensures
        match (r, spec_parse_line(line@, lineno)) {
            (Ok(u), Ok(gits)) => view_items(final(items)@) == view_items(old(items)@) + gits,
            (Err(e), Err(g)) => e@ == g,
            _ => false,
        },
{
    let ghost pre = view_items(items@);
    let ts = tokenize(line);
    if ts.len() == 0 {
        proof {
            assert(pre + Seq::<GAsmItem>::empty() =~= pre);
        }
        return Ok(());
    }
    proof {
        assert(views2(ts@)[0] == ts@[0]@);
    }
    let first_len = ts[0].len();
    if first_len > 0 && ts[0][0] == 46 {
        proof {
            assert(pre + Seq::<GAsmItem>::empty() =~= pre);
        }
        return Ok(());
    }
    if first_len > 0 && ts[0][first_len - 1] == 58 {
        let name = sub_bytes(&ts[0], 0, first_len - 1);
        proof {
            assert(name@ =~= views2(ts@)[0].drop_last());
        }
        let lab = AsmItem::LabelDef { name };
        proof {
            lemma_view_items_push(items@, lab);
        }
        items.push(lab);
        if ts.len() == 1 {
            proof {
                assert(pre.push(spec_parse_line(line@, lineno)->Ok_0[0]) =~= pre
                    + spec_parse_line(line@, lineno)->Ok_0);
            }
            return Ok(());
        }
        match parse_instr_exec(&ts, 1, lineno) {
            Err(e) => Err(e),
            Ok(it) => {
                proof {
                    lemma_view_items_push(items@, it);
                }
                items.push(it);
                proof {
                    assert(view_items(items@) =~= pre + spec_parse_line(line@, lineno)->Ok_0);
                }
                Ok(())
            },
        }
    } else {
        match parse_instr_exec(&ts, 0, lineno) {
            Err(e) => Err(e),
            Ok(it) => {
                proof {
                    lemma_view_items_push(items@, it);
                }
                items.push(it);
                proof {
                    assert(view_items(items@) =~= pre + spec_parse_line(line@, lineno)->Ok_0);
                }
                Ok(())
            },
        }
    }
}

/// Parses the whole source, exactly as [`spec_parse`] describes.
fn parse_source(src: &Vec<u8>) -> (r: Result<Vec<AsmItem>, AsmError>)
    ensures
        match (r, spec_parse(src@)) {
            (Ok(v), Ok(gits)) => view_items(v@) == gits,
            (Err(e), Err(g)) => e@ == g,
            _ => false,
        },
{
    let lines = split_lines(src);
    let ghost glines: Seq<Seq<u8>> = spec_lines(src@);
    let mut items: Vec<AsmItem> = Vec::new();
    proof {
        assert(view_items(items@) =~= Seq::<GAsmItem>::empty());
    }
    let mut i: usize = 0;
    while i < lines.len()
        invariant
            i <= lines@.len(),
            views2(lines@) == glines,
            glines.len() == lines@.len(),
            spec_parse(src@) == spec_parse_from(glines, i as int, view_items(items@)),
        decreases lines@.len() - i,
    {
        proof {
            assert(views2(lines@)[i as int] == lines@[i as int]@);
        }
        match parse_line_exec(&lines[i], i + 1, &mut items) {
            Err(e) => {
                return Err(e);
            },
            Ok(()) => {},
        }
        i = i + 1;
    }
    Ok(items)
}

/// Law: pass two emits for an instruction exactly as many bytes as pass one
/// counted for it — both passes choose the addressing mode through
/// [`spec_select_mode`], so the label addresses of pass one always point at
/// the byte offsets where pass two lays the instructions down.
pub proof fn lemma_passes_agree_on_size(
    bytes: Seq<u8>,
    fixups: Seq<GFixup>,
    line: usize,
    m: Mnemonic,
    op: Option<GOperandForm>,
    labels: Seq<(Seq<u8>, u16)>,
)
    ensures
        spec_emit_instr(bytes, fixups, line, m, op, labels) matches Ok(p) ==> {
            &&& spec_select_mode(m, op) matches Ok(mode)
            &&& p.0.len() == bytes.len() + isa::spec_instr_len(
                spec_select_mode(m, op)->Ok_0,
            )
        },
{
}

proof fn lemma_emit_keeps_undefined(
    bytes: Seq<u8>,
    fixups: Seq<GFixup>,
    line: usize,
    m: Mnemonic,
    op: Option<GOperandForm>,
    labels: Seq<(Seq<u8>, u16)>,
)
    requires
        forall|k: int|
            0 <= k < fixups.len() ==> spec_lookup(labels, (#[trigger] fixups[k]).name) is None,
    ensures
        spec_emit_instr(bytes, fixups, line, m, op, labels) matches Ok(p) ==> forall|k: int|
            0 <= k < p.1.len() ==> spec_lookup(labels, (#[trigger] p.1[k]).name) is None,
{
}

proof fn lemma_pass2_keeps_undefined(
    items: Seq<GAsmItem>,
    i: int,
    bytes: Seq<u8>,
    fixups: Seq<GFixup>,
    labels: Seq<(Seq<u8>, u16)>,
)
    requires
        forall|k: int|
            0 <= k < fixups.len() ==> spec_lookup(labels, (#[trigger] fixups[k]).name) is None,
    ensures
        spec_pass2_from(items, i, bytes, fixups, labels) matches Ok(p) ==> forall|k: int|
            0 <= k < p.1.len() ==> spec_lookup(labels, (#[trigger] p.1[k]).name) is None,
    decreases items.len() - i,
{
    if 0 <= i < items.len() {
        match items[i] {
            GAsmItem::LabelDef { .. } => {
                lemma_pass2_keeps_undefined(items, i + 1, bytes, fixups, labels);
            },
            GAsmItem::Instr { line, m, operand } => {
                lemma_emit_keeps_undefined(bytes, fixups, line, m, operand, labels);
                match spec_emit_instr(bytes, fixups, line, m, operand, labels) {
                    Ok(p) => {
                        lemma_pass2_keeps_undefined(items, i + 1, p.0, p.1, labels);
                    },
                    Err(e) => {},
                }
            },
        }
    }
}

/// Law: a successful assembly contains no placeholder bytes from the
/// unresolved list. Pass two looks labels up in the complete table of pass
/// one, so it records an unresolved reference only for a label defined
/// nowhere — and any such reference makes the resolution walk fail. On
/// success the unresolved list is empty and the output is exactly the bytes
/// pass two emitted, every label substituted directly.
pub proof fn lemma_no_placeholders_on_success(src: Seq<u8>)
    requires
        spec_assemble(src) is Ok,
    ensures
        spec_parse(src) is Ok,
        spec_pass1(spec_parse(src)->Ok_0) is Ok,
        ({
            let items = spec_parse(src)->Ok_0;
            let labels = spec_pass1(items)->Ok_0;
            &&& spec_pass2(items, labels) matches Ok(p)
            &&& spec_pass2(items, labels)->Ok_0.1 == Seq::<GFixup>::empty()
            &&& spec_assemble(src) == Ok::<Seq<u8>, GAsmError>(spec_pass2(items, labels)->Ok_0.0)
        }),
{
    let items = spec_parse(src)->Ok_0;
    let labels = spec_pass1(items)->Ok_0;
    lemma_pass2_keeps_undefined(items, 0, Seq::empty(), Seq::empty(), labels);
    let p = spec_pass2(items, labels)->Ok_0;
    if p.1.len() > 0 {
        assert(spec_lookup(labels, p.1[0].name) is None);
        assert(spec_resolve_from(p.0, p.1, 0, labels) is Err);
        assert(false);
    }
    assert(p.1 =~= Seq::<GFixup>::empty());
}

/// Encodes one LDA instruction from its operand text, exactly as
/// [`spec_compile_mn`] describes for [`Mnemonic::LDA`].
pub fn compile_lda(
    binary: &mut Vec<u8>,
    unresolved: &mut Vec<Fixup>,
    operand: &str,
    _current_address: u16,
    labels: &LabelTable,
    line_num: usize,
) -> (r: Result<(), AsmError>)
    ensures
        compiles_to(
            r,
            old(binary)@,
            view_fixups(old(unresolved)@),
            final(binary)@,
            view_fixups(final(unresolved)@),
            Mnemonic::LDA,
            operand.spec_bytes(),
            labels@,
            line_num,
        ),
{
    compile_operand_instr(binary, unresolved, Mnemonic::LDA, operand, labels, line_num)
}

/// Encodes one LDX instruction from its operand text, exactly as
/// [`spec_compile_mn`] describes for [`Mnemonic::LDX`].
pub fn compile_ldx(
    binary: &mut Vec<u8>,
    unresolved: &mut Vec<Fixup>,
    operand: &str,
    _current_address: u16,
    labels: &LabelTable,
    line_num: usize,
) -> (r: Result<(), AsmError>)
    ensures
        compiles_to(
            r,
            old(binary)@,
            view_fixups(old(unresolved)@),
            final(binary)@,
            view_fixups(final(unresolved)@),
            Mnemonic::LDX,
            operand.spec_bytes(),
            labels@,
            line_num,
        ),
{
    compile_operand_instr(binary, unresolved, Mnemonic::LDX, operand, labels, line_num)
}

/// Encodes one LDY instruction from its operand text, exactly as
/// [`spec_compile_mn`] describes for [`Mnemonic::LDY`].
pub fn compile_ldy(
    binary: &mut Vec<u8>,
    unresolved: &mut Vec<Fixup>,
    operand: &str,
    _current_address: u16,
    labels: &LabelTable,
    line_num: usize,
) -> (r: Result<(), AsmError>)
    ensures
        compiles_to(
            r,
            old(binary)@,
            view_fixups(old(unresolved)@),
            final(binary)@,
            view_fixups(final(unresolved)@),
            Mnemonic::LDY,
            operand.spec_bytes(),
            labels@,
            line_num,
        ),
{
    compile_operand_instr(binary, unresolved, Mnemonic::LDY, operand, labels, line_num)
}

/// Encodes one STA instruction from its operand text, exactly as
/// [`spec_compile_mn`] describes for [`Mnemonic::STA`].
pub fn compile_sta(
    binary: &mut Vec<u8>,
    unresolved: &mut Vec<Fixup>,
    operand: &str,
    _current_address: u16,
    labels: &LabelTable,
    line_num: usize,
) -> (r: Result<(), AsmError>)
    ensures
        compiles_to(
            r,
            old(binary)@,
            view_fixups(old(unresolved)@),
            final(binary)@,
            view_fixups(final(unresolved)@),
            Mnemonic::STA,
            operand.spec_bytes(),
            labels@,
            line_num,
        ),
{
    compile_operand_instr(binary, unresolved, Mnemonic::STA, operand, labels, line_num)
}

/// Encodes one STX instruction from its operand text, exactly as
/// [`spec_compile_mn`] describes for [`Mnemonic::STX`].
pub fn compile_stx(
    binary: &mut Vec<u8>,
    unresolved: &mut Vec<Fixup>,
    operand: &str,
    _current_address: u16,
    labels: &LabelTable,
    line_num: usize,
) -> (r: Result<(), AsmError>)
    ensures
        compiles_to(
            r,
            old(binary)@,
            view_fixups(old(unresolved)@),
            final(binary)@,
            view_fixups(final(unresolved)@),
            Mnemonic::STX,
            operand.spec_bytes(),
            labels@,
            line_num,
        ),
{
    compile_operand_instr(binary, unresolved, Mnemonic::STX, operand, labels, line_num)
}

/// Encodes one STY instruction from its operand text, exactly as
/// [`spec_compile_mn`] describes for [`Mnemonic::STY`].
pub fn compile_sty(
    binary: &mut Vec<u8>,
    unresolved: &mut Vec<Fixup>,
    operand: &str,
    _current_address: u16,
    labels: &LabelTable,
    line_num: usize,
) -> (r: Result<(), AsmError>)
    ensures
        compiles_to(
            r,
            old(binary)@,
            view_fixups(old(unresolved)@),
            final(binary)@,
            view_fixups(final(unresolved)@),
            Mnemonic::STY,
            operand.spec_bytes(),
            labels@,
            line_num,
        ),
{
    compile_operand_instr(binary, unresolved, Mnemonic::STY, operand, labels, line_num)
}

/// Encodes one ADC instruction from its operand text, exactly as
/// [`spec_compile_mn`] describes for [`Mnemonic::ADC`].
pub fn compile_adc(
    binary: &mut Vec<u8>,
    unresolved: &mut Vec<Fixup>,
    operand: &str,
    _current_address: u16,
    labels: &LabelTable,
    line_num: usize,
) -> (r: Result<(), AsmError>)
    ensures
        compiles_to(
            r,
            old(binary)@,
            view_fixups(old(unresolved)@),
            final(binary)@,
            view_fixups(final(unresolved)@),
            Mnemonic::ADC,
            operand.spec_bytes(),
            labels@,
            line_num,
        ),
{
    compile_operand_instr(binary, unresolved, Mnemonic::ADC, operand, labels, line_num)
}

/// Encodes one SBC instruction from its operand text, exactly as
/// [`spec_compile_mn`] describes for [`Mnemonic::SBC`].
pub fn compile_sbc(
    binary: &mut Vec<u8>,
    unresolved: &mut Vec<Fixup>,
    operand: &str,
    _current_address: u16,
    labels: &LabelTable,
    line_num: usize,
) -> (r: Result<(), AsmError>)
    ensures
        compiles_to(
            r,
            old(binary)@,
            view_fixups(old(unresolved)@),
            final(binary)@,
            view_fixups(final(unresolved)@),
            Mnemonic::SBC,
            operand.spec_bytes(),
            labels@,
            line_num,
        ),
{
    compile_operand_instr(binary, unresolved, Mnemonic::SBC, operand, labels, line_num)
}

/// Encodes one AND instruction from its operand text, exactly as
/// [`spec_compile_mn`] describes for [`Mnemonic::AND`].
pub fn compile_and(
    binary: &mut Vec<u8>,
    unresolved: &mut Vec<Fixup>,
    operand: &str,
    _current_address: u16,
    labels: &LabelTable,
    line_num: usize,
) -> (r: Result<(), AsmError>)
    ensures
        compiles_to(
            r,
            old(binary)@,
            view_fixups(old(unresolved)@),
            final(binary)@,
            view_fixups(final(unresolved)@),
            Mnemonic::AND,
            operand.spec_bytes(),
            labels@,
            line_num,
        ),
{
    compile_operand_instr(binary, unresolved, Mnemonic::AND, operand, labels, line_num)
}

/// Encodes one ORA instruction from its operand text, exactly as
/// [`spec_compile_mn`] describes for [`Mnemonic::ORA`].
pub fn compile_ora(
    binary: &mut Vec<u8>,
    unresolved: &mut Vec<Fixup>,
    operand: &str,
    _current_address: u16,
    labels: &LabelTable,
    line_num: usize,
) -> (r: Result<(), AsmError>)
    ensures
        compiles_to(
            r,
            old(binary)@,
            view_fixups(old(unresolved)@),
            final(binary)@,
            view_fixups(final(unresolved)@),
            Mnemonic::ORA,
            operand.spec_bytes(),
            labels@,
            line_num,
        ),
{
    compile_operand_instr(binary, unresolved, Mnemonic::ORA, operand, labels, line_num)
}

/// Encodes one EOR instruction from its operand text, exactly as
/// [`spec_compile_mn`] describes for [`Mnemonic::EOR`].
pub fn compile_eor(
    binary: &mut Vec<u8>,
    unresolved: &mut Vec<Fixup>,
    operand: &str,
    _current_address: u16,
    labels: &LabelTable,
    line_num: usize,
) -> (r: Result<(), AsmError>)
    ensures
        compiles_to(
            r,
            old(binary)@,
            view_fixups(old(unresolved)@),
            final(binary)@,
            view_fixups(final(unresolved)@),
            Mnemonic::EOR,
            operand.spec_bytes(),
            labels@,
            line_num,
        ),
{
    compile_operand_instr(binary, unresolved, Mnemonic::EOR, operand, labels, line_num)
}

/// Encodes one INC instruction from its operand text, exactly as
/// [`spec_compile_mn`] describes for [`Mnemonic::INC`].
pub fn compile_inc(
    binary: &mut Vec<u8>,
    unresolved: &mut Vec<Fixup>,
    operand: &str,
    _current_address: u16,
    labels: &LabelTable,
    line_num: usize,
) -> (r: Result<(), AsmError>)
    ensures
        compiles_to(
            r,
            old(binary)@,
            view_fixups(old(unresolved)@),
            final(binary)@,
            view_fixups(final(unresolved)@),
            Mnemonic::INC,
            operand.spec_bytes(),
            labels@,
            line_num,
        ),
{
    compile_operand_instr(binary, unresolved, Mnemonic::INC, operand, labels, line_num)
}

/// Encodes one DEC instruction from its operand text, exactly as
/// [`spec_compile_mn`] describes for [`Mnemonic::DEC`].
pub fn compile_dec(
    binary: &mut Vec<u8>,
    unresolved: &mut Vec<Fixup>,
    operand: &str,
    _current_address: u16,
    labels: &LabelTable,
    line_num: usize,
) -> (r: Result<(), AsmError>)
    ensures
        compiles_to(
            r,
            old(binary)@,
            view_fixups(old(unresolved)@),
            final(binary)@,
            view_fixups(final(unresolved)@),
            Mnemonic::DEC,
            operand.spec_bytes(),
            labels@,
            line_num,
        ),
{
    compile_operand_instr(binary, unresolved, Mnemonic::DEC, operand, labels, line_num)
}

/// Encodes one CMP instruction from its operand text, exactly as
/// [`spec_compile_mn`] describes for [`Mnemonic::CMP`].
pub fn compile_cmp(
    binary: &mut Vec<u8>,
    unresolved: &mut Vec<Fixup>,
    operand: &str,
    _current_address: u16,
    labels: &LabelTable,
    line_num: usize,
) -> (r: Result<(), AsmError>)
    ensures
        compiles_to(
            r,
            old(binary)@,
            view_fixups(old(unresolved)@),
            final(binary)@,
            view_fixups(final(unresolved)@),
            Mnemonic::CMP,
            operand.spec_bytes(),
            labels@,
            line_num,
        ),
{
    compile_operand_instr(binary, unresolved, Mnemonic::CMP, operand, labels, line_num)
}

/// Encodes one CPX instruction from its operand text, exactly as
/// [`spec_compile_mn`] describes for [`Mnemonic::CPX`].
pub fn compile_cpx(
    binary: &mut Vec<u8>,
    unresolved: &mut Vec<Fixup>,
    operand: &str,
    _current_address: u16,
    labels: &LabelTable,
    line_num: usize,
) -> (r: Result<(), AsmError>)
    ensures
        compiles_to(
            r,
            old(binary)@,
            view_fixups(old(unresolved)@),
            final(binary)@,
            view_fixups(final(unresolved)@),
            Mnemonic::CPX,
            operand.spec_bytes(),
            labels@,
            line_num,
        ),
{
    compile_operand_instr(binary, unresolved, Mnemonic::CPX, operand, labels, line_num)
}

/// Encodes one CPY instruction from its operand text, exactly as
/// [`spec_compile_mn`] describes for [`Mnemonic::CPY`].
pub fn compile_cpy(
    binary: &mut Vec<u8>,
    unresolved: &mut Vec<Fixup>,
    operand: &str,
    _current_address: u16,
    labels: &LabelTable,
    line_num: usize,
) -> (r: Result<(), AsmError>)
    ensures
        compiles_to(
            r,
            old(binary)@,
            view_fixups(old(unresolved)@),
            final(binary)@,
            view_fixups(final(unresolved)@),
            Mnemonic::CPY,
            operand.spec_bytes(),
            labels@,
            line_num,
        ),
{
    compile_operand_instr(binary, unresolved, Mnemonic::CPY, operand, labels, line_num)
}

/// Encodes one DBG instruction from its operand text, exactly as
/// [`spec_compile_mn`] describes for [`Mnemonic::DBG`].
pub fn compile_dbg(
    binary: &mut Vec<u8>,
    unresolved: &mut Vec<Fixup>,
    operand: &str,
    _current_address: u16,
    labels: &LabelTable,
    line_num: usize,
) -> (r: Result<(), AsmError>)
    ensures
        compiles_to(
            r,
            old(binary)@,
            view_fixups(old(unresolved)@),
            final(binary)@,
            view_fixups(final(unresolved)@),
            Mnemonic::DBG,
            operand.spec_bytes(),
            labels@,
            line_num,
        ),
{
    compile_operand_instr(binary, unresolved, Mnemonic::DBG, operand, labels, line_num)
}

} // verus!
