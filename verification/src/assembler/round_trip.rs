use vstd::prelude::*;

use crate::command::{command_spec, CommandModel, MachineState, MetaCommandModel};
use crate::errors::{classify, ErrorClass};
use crate::machine::instruction::args::{
    BinaryOp, BinaryOpArgs, BranchArgs, Comparator, IndexOp, IndexSource, JumpArgs, Source, Target, Timer,
};
use crate::machine::instruction::op_code::{
    decode_result, decode_spec, encode_spec, lemma_decode_then_encode, lemma_decode_wf, OpCode,
};
use crate::machine::instruction::{Flow, Graphics, Instruction};
use crate::machine::types::{Address, Byte, Nibble, Register, Word};

use super::keyword::{keyword_text, Keyword};
use super::number::{digit_value, parse_unsigned_spec, scan_digits};
use super::parser::{
    binary_op_of, branch_args_spec, index_op_of, index_source_of, instruction_spec, jump_args_spec,
    source_of, target_of, tok,
};
use super::text::{
    address_text, binary_op_keyword, branch_words, byte_text, command_text, hex_digit, hex_digits,
    hex_prefix, index_op_keyword, index_source_text, instruction_text, instruction_words,
    join_words, jump_words, kw, meta_command_text, meta_command_words, nibble_text, register_text,
    source_text, target_text, timer_text, word_text,
};
use super::token::{
    classify as classify_word, token_address, token_byte, token_nibble, token_register, TokenModel,
};
use super::tokens::{is_space, normalize, read_tokens, tokenize, wide_space_len, words, words_so_far};

verus! {

/// A non-empty word with no whitespace in it, ASCII or other.
pub open spec fn is_plain_word(w: Seq<u8>) -> bool {
    &&& w.len() > 0
    &&& forall|i: int| 0 <= i < w.len() ==> !is_space(#[trigger] w[i])
    &&& normalize(w) == w
}

/// Text made of ASCII characters only.
pub open spec fn is_ascii(t: Seq<u8>) -> bool {
    forall|i: int| 0 <= i < t.len() ==> #[trigger] t[i] < 0x80
}

/// ASCII text holds no whitespace character outside ASCII.
pub proof fn lemma_ascii_normal(t: Seq<u8>)
    requires
        is_ascii(t),
    ensures
        normalize(t) == t,
    decreases t.len(),
{
    if t.len() > 0 {
        let rest = t.skip(1);
        assert(t[0] < 0x80);
        assert forall|i: int| 0 <= i < rest.len() implies #[trigger] rest[i] < 0x80 by {
            assert(rest[i] == t[i + 1]);
        }
        lemma_ascii_normal(rest);
        assert(seq![t[0]] + rest =~= t);
    }
}

/// Replacing wide whitespace works piece by piece, where the second piece
/// starts with an ASCII character (no character is cut in two).
pub proof fn lemma_normalize_append(a: Seq<u8>, b: Seq<u8>)
    requires
        b.len() == 0 || b[0] < 0x80,
    ensures
        normalize(a + b) == normalize(a) + normalize(b),
    decreases a.len(),
{
    let ab = a + b;
    if a.len() == 0 {
        assert(ab =~= b);
        assert(normalize(a) + normalize(b) =~= normalize(b));
    } else {
        assert(ab[0] == a[0]);
        if a.len() >= 2 {
            assert(ab[1] == a[1]);
        } else if b.len() > 0 {
            assert(ab[1] == b[0]);
        }
        if a.len() >= 3 {
            assert(ab[2] == a[2]);
        } else if a.len() == 2 && b.len() > 0 {
            assert(ab[2] == b[0]);
        }
        let k = wide_space_len(a);
        assert(wide_space_len(ab) == k);
        let step: int = if k > 0 { k } else { 1 };
        assert(ab.skip(step) =~= a.skip(step) + b);
        lemma_normalize_append(a.skip(step), b);
        if k > 0 {
            assert(normalize(ab) == seq![' ' as u8] + normalize(ab.skip(step)));
            assert(normalize(a) == seq![' ' as u8] + normalize(a.skip(step)));
        } else {
            assert(normalize(ab) == seq![ab[0]] + normalize(ab.skip(step)));
            assert(normalize(a) == seq![a[0]] + normalize(a.skip(step)));
        }
        assert(normalize(ab) =~= normalize(a) + normalize(b));
    }
}

/// Words with no whitespace in them, joined by spaces, hold no wide
/// whitespace.
pub proof fn lemma_join_normal(ws: Seq<Seq<u8>>)
    requires
        forall|i: int| 0 <= i < ws.len() ==> is_plain_word(#[trigger] ws[i]),
    ensures
        normalize(join_words(ws)) == join_words(ws),
    decreases ws.len(),
{
    if ws.len() == 1 {
        assert(is_plain_word(ws[0]));
    } else if ws.len() > 1 {
        let init = ws.drop_last();
        assert forall|i: int| 0 <= i < init.len() implies is_plain_word(#[trigger] init[i]) by {
            assert(init[i] == ws[i]);
        }
        lemma_join_normal(init);
        let last = ws.last();
        assert(is_plain_word(ws[ws.len() - 1]));
        let tail = seq![' ' as u8] + last;
        assert(join_words(ws) =~= join_words(init) + tail);
        lemma_normalize_append(join_words(init), tail);
        assert(tail.skip(1) =~= last);
        assert(normalize(tail) =~= tail);
    }
}

/// Reading a run of non-whitespace characters extends the current word.
proof fn lemma_words_so_far_extend(s: Seq<u8>, w: Seq<u8>)
    requires
        forall|i: int| 0 <= i < w.len() ==> !is_space(#[trigger] w[i]),
    ensures
        words_so_far(s + w) == (words_so_far(s).0, words_so_far(s).1 + w),
    decreases w.len(),
{
    if w.len() == 0 {
        assert(s + w =~= s);
        assert(words_so_far(s).1 + w =~= words_so_far(s).1);
    } else {
        let init = w.drop_last();
        assert forall|i: int| 0 <= i < init.len() implies !is_space(#[trigger] init[i]) by {
            assert(init[i] == w[i]);
        }
        lemma_words_so_far_extend(s, init);
        assert((s + w).drop_last() =~= s + init);
        assert((s + w).last() == w.last());
        assert(!is_space(w[w.len() - 1]));
        assert(words_so_far(s).1 + init.push(w.last()) =~= words_so_far(s).1 + w);
        assert(init.push(w.last()) =~= w);
    }
}

/// A space ends the current word.
proof fn lemma_words_so_far_space(s: Seq<u8>)
    ensures
        words_so_far(s + seq![' ' as u8]) == (words(s), Seq::<u8>::empty()),
{
    let t = s + seq![' ' as u8];
    assert(t.drop_last() =~= s);
    assert(t.last() == ' ' as u8);
}

/// Splitting words joined by single spaces gives back the words.
pub proof fn lemma_words_of_joined(ws: Seq<Seq<u8>>)
    requires
        forall|i: int| 0 <= i < ws.len() ==> is_plain_word(#[trigger] ws[i]),
    ensures
        words(join_words(ws)) == ws,
    decreases ws.len(),
{
    if ws.len() == 0 {
        assert(words_so_far(Seq::<u8>::empty()).1.len() == 0);
    } else if ws.len() == 1 {
        assert(is_plain_word(ws[0]));
        lemma_words_so_far_extend(Seq::empty(), ws[0]);
        assert(Seq::<u8>::empty() + ws[0] =~= ws[0]);
        assert(Seq::<u8>::empty() + ws[0] =~= ws[0]);
        assert(words_so_far(Seq::<u8>::empty()).1 + ws[0] =~= ws[0]);
        assert(words(ws[0]) =~= seq![ws[0]]);
        assert(seq![ws[0]] =~= ws);
    } else {
        let init = ws.drop_last();
        assert forall|i: int| 0 <= i < init.len() implies is_plain_word(#[trigger] init[i]) by {
            assert(init[i] == ws[i]);
        }
        lemma_words_of_joined(init);
        let prefix = join_words(init) + seq![' ' as u8];
        lemma_words_so_far_space(join_words(init));
        assert(is_plain_word(ws[ws.len() - 1]));
        lemma_words_so_far_extend(prefix, ws.last());
        assert(join_words(ws) == prefix + ws.last());
        assert(Seq::<u8>::empty() + ws.last() =~= ws.last());
        assert(init.push(ws.last()) =~= ws);
    }
}

pub open spec fn pow16(w: nat) -> int
    decreases w,
{
    if w == 0 { 1 } else { 16 * pow16((w - 1) as nat) }
}

pub open spec fn is_hex_char(c: u8) -> bool {
    ('0' as u8 <= c <= '9' as u8) || ('A' as u8 <= c <= 'F' as u8)
}

proof fn lemma_hex_digit(v: int)
    requires
        0 <= v < 16,
    ensures
        is_hex_char(hex_digit(v)),
        digit_value(hex_digit(v), 16) == Some(v),
{
}

/// Hexadecimal digits are hexadecimal characters, and there are `width` of
/// them.
pub proof fn lemma_hex_digits_chars(v: int, width: nat)
    requires
        0 <= v,
    ensures
        hex_digits(v, width).len() == width,
        forall|i: int| 0 <= i < width ==> is_hex_char(#[trigger] hex_digits(v, width)[i]),
    decreases width,
{
    if width > 0 {
        lemma_hex_digits_chars(v / 16, (width - 1) as nat);
        lemma_hex_digit(v % 16);
        let d = hex_digits(v, width);
        assert forall|i: int| 0 <= i < width implies is_hex_char(#[trigger] d[i]) by {
            if i < width - 1 {
                assert(d[i] == hex_digits(v / 16, (width - 1) as nat)[i]);
            }
        }
    }
}

/// Reading hexadecimal digits back gives the number.
pub proof fn lemma_scan_hex(v: int, width: nat, max: int)
    requires
        0 <= v < pow16(width),
        v <= max,
    ensures
        scan_digits(hex_digits(v, width), 16, max) == Ok::<int, crate::errors::IntErrorKind>(v),
    decreases width,
{
    if width > 0 {
        lemma_scan_hex(v / 16, (width - 1) as nat, max);
        lemma_hex_digit(v % 16);
        let d = hex_digits(v, width);
        assert(d.drop_last() =~= hex_digits(v / 16, (width - 1) as nat));
        assert(d.last() == hex_digit(v % 16));
    }
}

/// The digits read as a number with `parse_unsigned_spec`, as a token does.
pub proof fn lemma_parse_hex(v: int, width: nat, max: int)
    requires
        0 <= v < pow16(width),
        v <= max,
        width > 0,
    ensures
        parse_unsigned_spec(hex_digits(v, width), 16, max) == Ok::<int, crate::errors::IntErrorKind>(v),
{
    lemma_scan_hex(v, width, max);
    lemma_hex_digits_chars(v, width);
    assert(is_hex_char(hex_digits(v, width)[0]));
}

/// The token that a register's text becomes, and the register it names.
pub proof fn lemma_register_token(r: Register)
    requires
        r.wf(),
    ensures
        classify_word(register_text(r)) == TokenModel::Register(hex_digits(r.id() as int, 1)),
        token_register(TokenModel::Register(hex_digits(r.id() as int, 1))) == Ok::<Register, ErrorClass>(r),
        is_plain_word(register_text(r)),
        hex_digits(r.id() as int, 1) != keyword_text(Keyword::IndexRegister),
        hex_digits(r.id() as int, 1) != keyword_text(Keyword::DelayTimer),
        hex_digits(r.id() as int, 1) != keyword_text(Keyword::SoundTimer),
{
    let v = r.id() as int;
    assert(pow16(1) == 16) by {
        reveal_with_fuel(pow16, 2);
    }
    lemma_parse_hex(v, 1, 0xFF);
    lemma_hex_digits_chars(v, 1);
    let t = register_text(r);
    assert(t.subrange(1, 2) =~= hex_digits(v, 1));
    assert(t[0] == 'V' as u8);
    assert(is_hex_char(hex_digits(v, 1)[0]));
    assert(t[1] == hex_digits(v, 1)[0]);
    lemma_ascii_normal(t);
    assert(keyword_text(Keyword::IndexRegister)[0] == 'I' as u8);
    assert(keyword_text(Keyword::DelayTimer)[0] == 'T' as u8);
    assert(keyword_text(Keyword::SoundTimer)[0] == 'S' as u8);
}

/// The token that `0x` and some hexadecimal digits become.
pub proof fn lemma_hex_token(v: int, width: nat)
    requires
        0 <= v,
        width > 0,
    ensures
        classify_word(hex_prefix() + hex_digits(v, width)) == TokenModel::Hex(hex_digits(v, width)),
        is_plain_word(hex_prefix() + hex_digits(v, width)),
{
    lemma_hex_digits_chars(v, width);
    let t = hex_prefix() + hex_digits(v, width);
    assert(t.subrange(2, t.len() as int) =~= hex_digits(v, width));
    assert forall|i: int| 0 <= i < t.len() implies !is_space(#[trigger] t[i]) && t[i] < 0x80 by {
        if i >= 2 {
            assert(t[i] == hex_digits(v, width)[i - 2]);
        }
    }
    lemma_ascii_normal(t);
}

/// Every keyword is a plain word. Those that do not start with `:` are read
/// as `Other` tokens.
pub proof fn lemma_keyword_word(k: Keyword)
    ensures
        is_plain_word(keyword_text(k)),
        keyword_text(k)[0] != '0' as u8,
        keyword_text(k)[0] != 'V' as u8,
        keyword_text(k)[0] != ':' as u8 ==> classify_word(keyword_text(k)) == TokenModel::Other(keyword_text(k)),
        keyword_text(k)[0] == ':' as u8 ==> classify_word(keyword_text(k)) == TokenModel::Meta(keyword_text(k)),
        keyword_text(k).len() > 1 ==> keyword_text(k)[1] == keyword_text(k)[1],
        is_ascii(keyword_text(k)),
{
    assert(is_ascii(keyword_text(k)));
    lemma_ascii_normal(keyword_text(k));
}

proof fn lemma_pow16_values()
    ensures
        pow16(1) == 16,
        pow16(2) == 256,
        pow16(3) == 4096,
        pow16(4) == 65536,
{
    reveal_with_fuel(pow16, 5);
}

/// The text of a nibble reads back as that nibble.
pub proof fn lemma_nibble_token(n: Nibble)
    requires
        n.wf(),
    ensures
        is_plain_word(nibble_text(n)),
        token_nibble(classify_word(nibble_text(n))) == Ok::<Nibble, ErrorClass>(n),
{
    lemma_pow16_values();
    lemma_hex_token(n.0 as int, 1);
    lemma_parse_hex(n.0 as int, 1, 0xFF);
}

/// The text of a byte reads back as that byte.
pub proof fn lemma_byte_token(b: Byte)
    ensures
        is_plain_word(byte_text(b)),
        classify_word(byte_text(b)) is Hex,
        token_byte(classify_word(byte_text(b))) == Ok::<Byte, ErrorClass>(b),
{
    lemma_pow16_values();
    let width: nat = if b.0 < 16 { 1 } else { 2 };
    lemma_hex_token(b.0 as int, width);
    lemma_parse_hex(b.0 as int, width, 0xFF);
}

/// The text of an address reads back as that address.
pub proof fn lemma_address_token(a: Address)
    requires
        a.wf(),
    ensures
        is_plain_word(address_text(a)),
        classify_word(address_text(a)) is Hex,
        token_address(classify_word(address_text(a))) == Ok::<Address, ErrorClass>(a),
{
    lemma_pow16_values();
    lemma_hex_token(a.0 as int, 3);
    lemma_parse_hex(a.0 as int, 3, 0xFFFF);
}

/// The text of a timer is `V` and the timer's letter.
pub proof fn lemma_timer_token(t: Timer)
    ensures
        is_plain_word(timer_text(t)),
        classify_word(timer_text(t)) == TokenModel::Register(keyword_text(
            if t == Timer::Delay { Keyword::DelayTimer } else { Keyword::SoundTimer },
        )),
        keyword_text(if t == Timer::Delay { Keyword::DelayTimer } else { Keyword::SoundTimer })
            != keyword_text(Keyword::IndexRegister),
{
    let k = if t == Timer::Delay { Keyword::DelayTimer } else { Keyword::SoundTimer };
    let w = timer_text(t);
    assert(w =~= seq!['V' as u8] + keyword_text(k));
    assert(w.subrange(1, 2) =~= keyword_text(k));
    assert(keyword_text(k)[0] != keyword_text(Keyword::IndexRegister)[0]);
    lemma_ascii_normal(w);
}

/// The text of a result location reads back as that location.
pub proof fn lemma_target_token(t: Target)
    requires
        t.wf(),
    ensures
        is_plain_word(target_text(t)),
        target_of(classify_word(target_text(t))) == Ok::<Target, ErrorClass>(t),
        classify_word(target_text(t)) matches TokenModel::Register(s) && s != keyword_text(Keyword::IndexRegister),
{
    match t {
        Target::Register(r) => {
            lemma_register_token(r);
        },
        Target::Timer(timer) => {
            lemma_timer_token(timer);
            assert(keyword_text(Keyword::DelayTimer) != keyword_text(Keyword::SoundTimer)) by {
                assert(keyword_text(Keyword::DelayTimer)[0] != keyword_text(Keyword::SoundTimer)[0]);
            }
        },
    }
}

/// The text of an operand reads back as that operand.
pub proof fn lemma_source_token(s: Source)
    requires
        s.wf(),
    ensures
        is_plain_word(source_text(s)),
        source_of(classify_word(source_text(s))) == Ok::<Source, ErrorClass>(s),
{
    match s {
        Source::Byte(b) => {
            lemma_byte_token(b);
        },
        Source::Register(r) => {
            lemma_register_token(r);
        },
        Source::Timer(timer) => {
            lemma_timer_token(timer);
            assert(keyword_text(Keyword::DelayTimer) != keyword_text(Keyword::SoundTimer)) by {
                assert(keyword_text(Keyword::DelayTimer)[0] != keyword_text(Keyword::SoundTimer)[0]);
            }
        },
    }
}

/// The text of an index operand reads back as that operand.
pub proof fn lemma_index_source_token(s: IndexSource)
    requires
        s.wf(),
    ensures
        is_plain_word(index_source_text(s)),
        index_source_of(classify_word(index_source_text(s))) == Ok::<IndexSource, ErrorClass>(s),
{
    match s {
        IndexSource::Value(a) => {
            lemma_address_token(a);
        },
        IndexSource::Register(r) => {
            lemma_register_token(r);
        },
    }
}

/// The operator word of an arithmetic instruction reads back as its
/// operation.
pub proof fn lemma_binary_op_word(op: BinaryOp)
    ensures
        is_plain_word(keyword_text(binary_op_keyword(op))),
        binary_op_of(classify_word(keyword_text(binary_op_keyword(op)))) == Ok::<BinaryOp, ErrorClass>(op),
{
    lemma_keyword_word(Keyword::Assign);
    lemma_keyword_word(Keyword::Add);
    lemma_keyword_word(Keyword::AddWrapping);
    lemma_keyword_word(Keyword::Subtract);
    lemma_keyword_word(Keyword::SubtractAlt);
    lemma_keyword_word(Keyword::BitAnd);
    lemma_keyword_word(Keyword::BitOr);
    lemma_keyword_word(Keyword::BitXor);
    lemma_keyword_word(Keyword::ShiftLeft);
    lemma_keyword_word(Keyword::ShiftRight);
    lemma_keyword_word(Keyword::Random);
}

/// The words in which each instruction is written: its name (`exit`,
/// `graphics clear`, `graphics draw`, `return`, `sys`, `jump`, `call`,
/// `branch`, `font`, `key await`, `bcd`, or `VI` for the index register)
/// followed by its operands. A register is `V` and its upper-case
/// hexadecimal digit, a timer `VT` (delay) or `VS` (sound), a branch on
/// inequality ends in `!`.
pub proof fn lemma_instruction_word_table(i: Instruction)
    ensures
        match i {
            Instruction::Exit => instruction_words(i) == seq![seq!['e' as u8, 'x' as u8, 'i' as u8, 't' as u8]],
            Instruction::Graphics(Graphics::Clear) => instruction_words(i) == seq![seq!['g' as u8, 'r' as u8, 'a' as u8, 'p' as u8, 'h' as u8, 'i' as u8, 'c' as u8, 's' as u8], seq!['c' as u8, 'l' as u8, 'e' as u8, 'a' as u8, 'r' as u8]],
            Instruction::Graphics(Graphics::Draw { args }) => instruction_words(i) == seq![seq!['g' as u8, 'r' as u8, 'a' as u8, 'p' as u8, 'h' as u8, 'i' as u8, 'c' as u8, 's' as u8], seq!['d' as u8, 'r' as u8, 'a' as u8, 'w' as u8],
                register_text(args.x), register_text(args.y), nibble_text(args.height)],
            Instruction::Flow(Flow::Return) => instruction_words(i) == seq![seq!['r' as u8, 'e' as u8, 't' as u8, 'u' as u8, 'r' as u8, 'n' as u8]],
            Instruction::Flow(Flow::Sys { args }) => instruction_words(i) == seq![seq!['s' as u8, 'y' as u8, 's' as u8]] + jump_words(args),
            Instruction::Flow(Flow::Jump { args }) => instruction_words(i) == seq![seq!['j' as u8, 'u' as u8, 'm' as u8, 'p' as u8]] + jump_words(args),
            Instruction::Flow(Flow::Call { args }) => instruction_words(i) == seq![seq!['c' as u8, 'a' as u8, 'l' as u8, 'l' as u8]] + jump_words(args),
            Instruction::Flow(Flow::Branch { args }) => instruction_words(i) == seq![seq!['b' as u8, 'r' as u8, 'a' as u8, 'n' as u8, 'c' as u8, 'h' as u8], source_text(args.lhs),
                source_text(args.rhs)] + (if args.comparator == Comparator::Equal { Seq::empty() } else { seq![seq!['!' as u8]] }),
            Instruction::Index { args } => instruction_words(i) == seq![seq!['V' as u8, 'I' as u8],
                keyword_text(index_op_keyword(args.op)), index_source_text(args.source)],
            Instruction::Arithmetic { args } => instruction_words(i) == seq![target_text(args.target),
                keyword_text(binary_op_keyword(args.op)), source_text(args.source)],
            Instruction::Font { args } => instruction_words(i) == seq![seq!['f' as u8, 'o' as u8, 'n' as u8, 't' as u8], register_text(args.register)],
            Instruction::KeyAwait { args } => instruction_words(i) == seq![seq!['k' as u8, 'e' as u8, 'y' as u8], seq!['a' as u8, 'w' as u8, 'a' as u8, 'i' as u8, 't' as u8],
                register_text(args.register)],
            Instruction::BinaryCodedDecimal { args } => instruction_words(i) == seq![seq!['b' as u8, 'c' as u8, 'd' as u8], register_text(args.register)],
        },
{
    match i {
        Instruction::Graphics(Graphics::Draw { args }) => {
            assert(instruction_words(i) =~= seq![seq!['g' as u8, 'r' as u8, 'a' as u8, 'p' as u8, 'h' as u8, 'i' as u8, 'c' as u8, 's' as u8], seq!['d' as u8, 'r' as u8, 'a' as u8, 'w' as u8],
                register_text(args.x), register_text(args.y), nibble_text(args.height)]);
        },
        Instruction::Graphics(Graphics::Clear) => {
            assert(instruction_words(i) =~= seq![seq!['g' as u8, 'r' as u8, 'a' as u8, 'p' as u8, 'h' as u8, 'i' as u8, 'c' as u8, 's' as u8], seq!['c' as u8, 'l' as u8, 'e' as u8, 'a' as u8, 'r' as u8]]);
        },
        Instruction::Flow(Flow::Branch { args }) => {
            assert(instruction_words(i) =~= seq![seq!['b' as u8, 'r' as u8, 'a' as u8, 'n' as u8, 'c' as u8, 'h' as u8], source_text(args.lhs),
                source_text(args.rhs)] + (if args.comparator == Comparator::Equal { Seq::empty() } else { seq![seq!['!' as u8]] }));
        },
        Instruction::Index { args } => {
            assert(seq!['V' as u8] + keyword_text(Keyword::IndexRegister) =~= seq!['V' as u8, 'I' as u8]);
        },
        Instruction::Font { args } => {
            assert(instruction_words(i) =~= seq![seq!['f' as u8, 'o' as u8, 'n' as u8, 't' as u8], register_text(args.register)]);
        },
        Instruction::KeyAwait { args } => {
            assert(instruction_words(i) =~= seq![seq!['k' as u8, 'e' as u8, 'y' as u8], seq!['a' as u8, 'w' as u8, 'a' as u8, 'i' as u8, 't' as u8], register_text(args.register)]);
        },
        Instruction::BinaryCodedDecimal { args } => {
            assert(instruction_words(i) =~= seq![seq!['b' as u8, 'c' as u8, 'd' as u8], register_text(args.register)]);
        },
        _ => {},
    }
}

/// How operands are written: a register as `V` and its digit (`0`-`9`, then
/// upper-case `A`-`F`), the delay timer as `VT` and the sound timer as `VS`,
/// a nibble as `0x` and one digit, an address as `0x` and three digits.
pub proof fn lemma_operand_texts(r: Register, a: Address, n: Nibble)
    requires
        r.wf(),
        a.wf(),
        n.wf(),
    ensures
        ({
            let digit = |v: int| (if v < 10 { 48 + v } else { 55 + v }) as u8;
            &&& register_text(r) == seq!['V' as u8, digit(r.0.0 as int)]
            &&& timer_text(Timer::Delay) == seq!['V' as u8, 'T' as u8]
            &&& timer_text(Timer::Sound) == seq!['V' as u8, 'S' as u8]
            &&& nibble_text(n) == seq!['0' as u8, 'x' as u8, digit(n.0 as int)]
            &&& address_text(a) == seq!['0' as u8, 'x' as u8, digit(a.0 as int / 256),
                digit((a.0 as int / 16) % 16), digit(a.0 as int % 16)]
        }),
{
    reveal_with_fuel(hex_digits, 4);
    assert(register_text(r) =~= seq!['V' as u8, hex_digit(r.0.0 as int % 16)]);
    assert(timer_text(Timer::Delay) =~= seq!['V' as u8, 'T' as u8]);
    assert(timer_text(Timer::Sound) =~= seq!['V' as u8, 'S' as u8]);
    assert(nibble_text(n) =~= seq!['0' as u8, 'x' as u8, hex_digit(n.0 as int % 16)]);
    let v = a.0 as int;
    assert(hex_digits(v, 3) =~= seq![hex_digit((v / 16 / 16) % 16), hex_digit((v / 16) % 16), hex_digit(v % 16)]);
    assert(v / 16 / 16 == v / 256);
    assert(address_text(a) =~= seq!['0' as u8, 'x' as u8, hex_digit(v / 256 % 16), hex_digit((v / 16) % 16),
        hex_digit(v % 16)]);
}

/// The words in which each meta command is written: `:reset` (with
/// `demo`, or an empty word so that the text ends in a space), `:load` with
/// the path and the address, if any, `:dump` and `:load-machine` with the
/// path, `:unload`, `:tick`, `:play`, `:pause`, `:play-pause`.
pub proof fn lemma_meta_word_table(m: MetaCommandModel)
    ensures
        meta_command_words(m) == match m {
            MetaCommandModel::Reset(None) => seq![seq![':' as u8, 'r' as u8, 'e' as u8, 's' as u8, 'e' as u8, 't' as u8], Seq::empty()],
            MetaCommandModel::Reset(Some(_)) => seq![seq![':' as u8, 'r' as u8, 'e' as u8, 's' as u8, 'e' as u8, 't' as u8], seq!['d' as u8, 'e' as u8, 'm' as u8, 'o' as u8]],
            MetaCommandModel::LoadRom(p, None) => seq![seq![':' as u8, 'l' as u8, 'o' as u8, 'a' as u8, 'd' as u8], p],
            MetaCommandModel::LoadRom(p, Some(a)) => seq![seq![':' as u8, 'l' as u8, 'o' as u8, 'a' as u8, 'd' as u8], p, address_text(a)],
            MetaCommandModel::DumpMachine(p) => seq![seq![':' as u8, 'd' as u8, 'u' as u8, 'm' as u8, 'p' as u8], p],
            MetaCommandModel::LoadMachine(p) => seq![seq![':' as u8, 'l' as u8, 'o' as u8, 'a' as u8, 'd' as u8, '-' as u8, 'm' as u8, 'a' as u8, 'c' as u8, 'h' as u8, 'i' as u8, 'n' as u8, 'e' as u8], p],
            MetaCommandModel::UnloadRom => seq![seq![':' as u8, 'u' as u8, 'n' as u8, 'l' as u8, 'o' as u8, 'a' as u8, 'd' as u8]],
            MetaCommandModel::Tick => seq![seq![':' as u8, 't' as u8, 'i' as u8, 'c' as u8, 'k' as u8]],
            MetaCommandModel::Play => seq![seq![':' as u8, 'p' as u8, 'l' as u8, 'a' as u8, 'y' as u8]],
            MetaCommandModel::Pause => seq![seq![':' as u8, 'p' as u8, 'a' as u8, 'u' as u8, 's' as u8, 'e' as u8]],
            MetaCommandModel::PlayPause => seq![seq![':' as u8, 'p' as u8, 'l' as u8, 'a' as u8, 'y' as u8, '-' as u8, 'p' as u8, 'a' as u8, 'u' as u8, 's' as u8, 'e' as u8]],
        },
{
    assert(meta_command_words(m) =~= match m {
        MetaCommandModel::Reset(None) => seq![seq![':' as u8, 'r' as u8, 'e' as u8, 's' as u8, 'e' as u8, 't' as u8], Seq::empty()],
        MetaCommandModel::Reset(Some(_)) => seq![seq![':' as u8, 'r' as u8, 'e' as u8, 's' as u8, 'e' as u8, 't' as u8], seq!['d' as u8, 'e' as u8, 'm' as u8, 'o' as u8]],
        MetaCommandModel::LoadRom(p, None) => seq![seq![':' as u8, 'l' as u8, 'o' as u8, 'a' as u8, 'd' as u8], p],
        MetaCommandModel::LoadRom(p, Some(a)) => seq![seq![':' as u8, 'l' as u8, 'o' as u8, 'a' as u8, 'd' as u8], p, address_text(a)],
        MetaCommandModel::DumpMachine(p) => seq![seq![':' as u8, 'd' as u8, 'u' as u8, 'm' as u8, 'p' as u8], p],
        MetaCommandModel::LoadMachine(p) => seq![seq![':' as u8, 'l' as u8, 'o' as u8, 'a' as u8, 'd' as u8, '-' as u8, 'm' as u8, 'a' as u8, 'c' as u8, 'h' as u8, 'i' as u8, 'n' as u8, 'e' as u8], p],
        MetaCommandModel::UnloadRom => seq![seq![':' as u8, 'u' as u8, 'n' as u8, 'l' as u8, 'o' as u8, 'a' as u8, 'd' as u8]],
        MetaCommandModel::Tick => seq![seq![':' as u8, 't' as u8, 'i' as u8, 'c' as u8, 'k' as u8]],
        MetaCommandModel::Play => seq![seq![':' as u8, 'p' as u8, 'l' as u8, 'a' as u8, 'y' as u8]],
        MetaCommandModel::Pause => seq![seq![':' as u8, 'p' as u8, 'a' as u8, 'u' as u8, 's' as u8, 'e' as u8]],
        MetaCommandModel::PlayPause => seq![seq![':' as u8, 'p' as u8, 'l' as u8, 'a' as u8, 'y' as u8, '-' as u8, 'p' as u8, 'a' as u8, 'u' as u8, 's' as u8, 'e' as u8]],
    });
}

/// The operator of each arithmetic operation, as written and as read:
/// `=`, `+=`, `+~`, `-=`, `-~`, `&=`, `|=`, `^=`, `<<=`, `>>=` and `?=`.
/// An arithmetic instruction is written as its result location, its
/// operator and its operand, separated by spaces.
pub proof fn lemma_operator_words(op: BinaryOp, target: Target, source: Source)
    ensures
        ({
            let symbol: Seq<u8> = match op {
                BinaryOp::Assign => seq!['=' as u8],
                BinaryOp::Add => seq!['+' as u8, '=' as u8],
                BinaryOp::AddWrapping => seq!['+' as u8, '~' as u8],
                BinaryOp::Subtract => seq!['-' as u8, '=' as u8],
                BinaryOp::SubtractAlt => seq!['-' as u8, '~' as u8],
                BinaryOp::BitAnd => seq!['&' as u8, '=' as u8],
                BinaryOp::BitOr => seq!['|' as u8, '=' as u8],
                BinaryOp::BitXor => seq!['^' as u8, '=' as u8],
                BinaryOp::BitShiftLeft => seq!['<' as u8, '<' as u8, '=' as u8],
                BinaryOp::BitShiftRight => seq!['>' as u8, '>' as u8, '=' as u8],
                BinaryOp::Random => seq!['?' as u8, '=' as u8],
            };
            &&& keyword_text(binary_op_keyword(op)) == symbol
            &&& binary_op_of(TokenModel::Other(symbol)) == Ok::<BinaryOp, ErrorClass>(op)
            &&& instruction_text(Instruction::Arithmetic { args: BinaryOpArgs { target, source, op } })
                == target_text(target) + seq![' ' as u8] + symbol + seq![' ' as u8] + source_text(source)
        }),
{
    lemma_binary_op_word(op);
    let symbol = keyword_text(binary_op_keyword(op));
    lemma_keyword_word(binary_op_keyword(op));
    let ws = instruction_words(Instruction::Arithmetic { args: BinaryOpArgs { target, source, op } });
    assert(ws =~= seq![target_text(target), symbol, source_text(source)]);
    let two = ws.drop_last();
    assert(two =~= seq![target_text(target), symbol]);
    assert(two.drop_last() =~= seq![target_text(target)]);
    assert(join_words(two.drop_last()) == target_text(target));
    assert(join_words(two) == target_text(target) + seq![' ' as u8] + symbol);
    assert(join_words(ws) == join_words(two) + seq![' ' as u8] + source_text(source));
    assert(join_words(ws) =~= target_text(target) + seq![' ' as u8] + symbol + seq![' ' as u8] + source_text(source));
}

/// The operators of the index register: `=` sets it and `+=` adds to it.
pub proof fn lemma_index_operator_words(op: IndexOp)
    ensures
        ({
            let symbol: Seq<u8> = match op {
                IndexOp::Assign => seq!['=' as u8],
                IndexOp::Add => seq!['+' as u8, '=' as u8],
            };
            &&& keyword_text(index_op_keyword(op)) == symbol
            &&& index_op_of(TokenModel::Other(symbol)) == Ok::<IndexOp, ErrorClass>(op)
        }),
{
    lemma_index_op_word(op);
}

/// The operator word of an index instruction reads back as its operation.
pub proof fn lemma_index_op_word(op: IndexOp)
    ensures
        is_plain_word(keyword_text(index_op_keyword(op))),
        index_op_of(classify_word(keyword_text(index_op_keyword(op)))) == Ok::<IndexOp, ErrorClass>(op),
{
    lemma_keyword_word(Keyword::Assign);
    lemma_keyword_word(Keyword::Add);
}

/// The words that start the instructions named by a keyword are told apart.
proof fn lemma_command_words()
    ensures
        forall|k: Keyword| #![trigger keyword_text(k)]
            is_plain_word(keyword_text(k))
            && (keyword_text(k)[0] != ':' as u8 ==> classify_word(keyword_text(k)) == TokenModel::Other(keyword_text(k))),
{
    assert forall|k: Keyword| #![trigger keyword_text(k)]
        is_plain_word(keyword_text(k))
        && (keyword_text(k)[0] != ':' as u8 ==> classify_word(keyword_text(k)) == TokenModel::Other(keyword_text(k))) by {
        lemma_keyword_word(k);
    }
    lemma_keyword_word(Keyword::Exit);
    lemma_keyword_word(Keyword::Graphics);
    lemma_keyword_word(Keyword::Return);
    lemma_keyword_word(Keyword::Sys);
    lemma_keyword_word(Keyword::Jump);
    lemma_keyword_word(Keyword::Call);
    lemma_keyword_word(Keyword::Branch);
    lemma_keyword_word(Keyword::Bcd);
    lemma_keyword_word(Keyword::Font);
    lemma_keyword_word(Keyword::Key);
    lemma_keyword_word(Keyword::Await);
    lemma_keyword_word(Keyword::Clear);
    lemma_keyword_word(Keyword::Draw);
    lemma_keyword_word(Keyword::Not);
}

/// Each word of an instruction's text is a plain word.
#[verifier::rlimit(50)]
pub proof fn lemma_instruction_words_plain(i: Instruction)
    requires
        i.wf(),
    ensures
        forall|k: int| 0 <= k < instruction_words(i).len() ==> is_plain_word(#[trigger] instruction_words(i)[k]),
{
    lemma_command_words();
    let ws = instruction_words(i);
    match i {
        Instruction::Graphics(Graphics::Draw { args }) => {
            lemma_register_token(args.x);
            lemma_register_token(args.y);
            lemma_nibble_token(args.height);
        },
        Instruction::Flow(Flow::Sys { args }) | Instruction::Flow(Flow::Jump { args })
        | Instruction::Flow(Flow::Call { args }) => {
            lemma_address_token(args.address);
            if let Some(r) = args.register {
                lemma_register_token(r);
            }
        },
        Instruction::Flow(Flow::Branch { args }) => {
            lemma_source_token(args.lhs);
            lemma_source_token(args.rhs);
        },
        Instruction::Index { args } => {
            lemma_index_op_word(args.op);
            lemma_index_source_token(args.source);
            let v = seq!['V' as u8] + keyword_text(Keyword::IndexRegister);
            assert(v =~= seq!['V' as u8, 'I' as u8]);
            lemma_ascii_normal(v);
        },
        Instruction::Arithmetic { args } => {
            lemma_target_token(args.target);
            lemma_binary_op_word(args.op);
            lemma_source_token(args.source);
        },
        Instruction::Font { args } | Instruction::KeyAwait { args }
        | Instruction::BinaryCodedDecimal { args } => {
            lemma_register_token(args.register);
        },
        _ => {},
    }
    assert forall|k: int| 0 <= k < ws.len() implies is_plain_word(#[trigger] ws[k]) by {
        match i {
            Instruction::Graphics(Graphics::Draw { args }) => {
                assert(ws =~= seq![keyword_text(Keyword::Graphics), keyword_text(Keyword::Draw),
                    register_text(args.x), register_text(args.y), nibble_text(args.height)]);
            },
            Instruction::Graphics(Graphics::Clear) => {
                assert(ws =~= seq![keyword_text(Keyword::Graphics), keyword_text(Keyword::Clear)]);
            },
            Instruction::KeyAwait { args } => {
                assert(ws =~= seq![keyword_text(Keyword::Key), keyword_text(Keyword::Await),
                    register_text(args.register)]);
            },
            _ => {},
        }
    }
}

/// The tokens of words joined by spaces are the words, each classified.
pub proof fn lemma_tokens_of_joined(ws: Seq<Seq<u8>>)
    requires
        forall|i: int| 0 <= i < ws.len() ==> is_plain_word(#[trigger] ws[i]),
    ensures
        tokenize(join_words(ws)) == ws.map_values(|w: Seq<u8>| classify_word(w)),
        read_tokens(join_words(ws)) == ws.map_values(|w: Seq<u8>| classify_word(w)),
{
    lemma_words_of_joined(ws);
    lemma_join_normal(ws);
}

/// The tokens of an instruction's text, and what each of them is.
proof fn lemma_instruction_tokens(i: Instruction) -> (ts: Seq<TokenModel>)
    requires
        i.wf(),
    ensures
        ts == read_tokens(instruction_text(i)),
        ts.len() == instruction_words(i).len(),
        forall|k: int| 0 <= k < ts.len() ==> #[trigger] ts[k] == classify_word(instruction_words(i)[k]),
{
    let ws = instruction_words(i);
    lemma_instruction_words_plain(i);
    lemma_tokens_of_joined(ws);
    ws.map_values(|w: Seq<u8>| classify_word(w))
}

proof fn lemma_parse_graphics(g: Graphics)
    requires
        Instruction::Graphics(g).wf(),
    ensures
        instruction_spec(read_tokens(instruction_text(Instruction::Graphics(g)))) == Ok::<Instruction, ErrorClass>(Instruction::Graphics(g)),
{
    let i = Instruction::Graphics(g);
    let ws = instruction_words(i);
    let ts = lemma_instruction_tokens(i);
    lemma_keyword_word(Keyword::Graphics);
    lemma_keyword_word(Keyword::Exit);
    assert(ws[0] == keyword_text(Keyword::Graphics));
    assert(ts[0] == TokenModel::Other(keyword_text(Keyword::Graphics)));
    assert(ts.skip(1)[0] == ts[1]);
    match g {
        Graphics::Clear => {
            lemma_keyword_word(Keyword::Clear);
            assert(ws[1] == keyword_text(Keyword::Clear));
        },
        Graphics::Draw { args } => {
            lemma_keyword_word(Keyword::Clear);
            lemma_keyword_word(Keyword::Draw);
            lemma_register_token(args.x);
            lemma_register_token(args.y);
            lemma_nibble_token(args.height);
            assert(ws[1] == keyword_text(Keyword::Draw));
            let rest = ts.skip(1).skip(1);
            assert(rest[0] == ts[2] && rest[1] == ts[3] && rest[2] == ts[4]);
            assert(ws[2] == register_text(args.x));
            assert(ws[3] == register_text(args.y));
            assert(ws[4] == nibble_text(args.height));
        },
    }
}

/// The words of a jump's arguments read back as those arguments.
proof fn lemma_jump_args_tokens(args: JumpArgs, ts: Seq<TokenModel>)
    requires
        args.wf(),
        ts.len() == jump_words(args).len(),
        forall|k: int| 0 <= k < ts.len() ==> #[trigger] ts[k] == classify_word(jump_words(args)[k]),
    ensures
        jump_args_spec(ts) == Ok::<JumpArgs, ErrorClass>(args),
{
    lemma_address_token(args.address);
    assert(ts[0] == classify_word(address_text(args.address)));
    if let Some(r) = args.register {
        lemma_register_token(r);
        assert(ts[1] == classify_word(register_text(r)));
    }
}

/// The words of a branch's arguments read back as those arguments.
proof fn lemma_branch_args_tokens(args: BranchArgs, ts: Seq<TokenModel>)
    requires
        args.wf(),
        ts.len() == branch_words(args).len(),
        forall|k: int| 0 <= k < ts.len() ==> #[trigger] ts[k] == classify_word(branch_words(args)[k]),
    ensures
        branch_args_spec(ts) == Ok::<BranchArgs, ErrorClass>(args),
{
    lemma_source_token(args.lhs);
    lemma_source_token(args.rhs);
    assert(ts[0] == classify_word(source_text(args.lhs)));
    assert(ts[1] == classify_word(source_text(args.rhs)));
    if args.comparator != Comparator::Equal {
        lemma_keyword_word(Keyword::Not);
        assert(ts[2] == classify_word(keyword_text(Keyword::Not)));
    }
}

/// The first word of a flow instruction is not one of the words tested
/// before it.
proof fn lemma_flow_words()
    ensures
        classify_word(keyword_text(Keyword::Return)) == TokenModel::Other(keyword_text(Keyword::Return)),
        classify_word(keyword_text(Keyword::Sys)) == TokenModel::Other(keyword_text(Keyword::Sys)),
        classify_word(keyword_text(Keyword::Jump)) == TokenModel::Other(keyword_text(Keyword::Jump)),
        classify_word(keyword_text(Keyword::Call)) == TokenModel::Other(keyword_text(Keyword::Call)),
        classify_word(keyword_text(Keyword::Branch)) == TokenModel::Other(keyword_text(Keyword::Branch)),
        keyword_text(Keyword::Exit) != keyword_text(Keyword::Return),
        keyword_text(Keyword::Graphics) != keyword_text(Keyword::Return),
        keyword_text(Keyword::Exit) != keyword_text(Keyword::Sys),
        keyword_text(Keyword::Graphics) != keyword_text(Keyword::Sys),
        keyword_text(Keyword::Return) != keyword_text(Keyword::Sys),
        keyword_text(Keyword::Exit) != keyword_text(Keyword::Jump),
        keyword_text(Keyword::Graphics) != keyword_text(Keyword::Jump),
        keyword_text(Keyword::Return) != keyword_text(Keyword::Jump),
        keyword_text(Keyword::Sys) != keyword_text(Keyword::Jump),
        keyword_text(Keyword::Exit) != keyword_text(Keyword::Call),
        keyword_text(Keyword::Graphics) != keyword_text(Keyword::Call),
        keyword_text(Keyword::Return) != keyword_text(Keyword::Call),
        keyword_text(Keyword::Sys) != keyword_text(Keyword::Call),
        keyword_text(Keyword::Jump) != keyword_text(Keyword::Call),
        keyword_text(Keyword::Exit) != keyword_text(Keyword::Branch),
        keyword_text(Keyword::Graphics) != keyword_text(Keyword::Branch),
        keyword_text(Keyword::Return) != keyword_text(Keyword::Branch),
        keyword_text(Keyword::Sys) != keyword_text(Keyword::Branch),
        keyword_text(Keyword::Jump) != keyword_text(Keyword::Branch),
        keyword_text(Keyword::Call) != keyword_text(Keyword::Branch),
{
    lemma_keyword_word(Keyword::Exit);
    lemma_keyword_word(Keyword::Graphics);
    lemma_keyword_word(Keyword::Return);
    lemma_keyword_word(Keyword::Sys);
    lemma_keyword_word(Keyword::Jump);
    lemma_keyword_word(Keyword::Call);
    lemma_keyword_word(Keyword::Branch);
}

proof fn lemma_parse_jump_like(f: Flow)
    requires
        Instruction::Flow(f).wf(),
        f is Sys || f is Jump || f is Call,
    ensures
        instruction_spec(read_tokens(instruction_text(Instruction::Flow(f)))) == Ok::<Instruction, ErrorClass>(Instruction::Flow(f)),
{
    let i = Instruction::Flow(f);
    let ws = instruction_words(i);
    let ts = lemma_instruction_tokens(i);
    lemma_flow_words();
    let rest = ts.skip(1);
    let (k, args) = match f {
        Flow::Sys { args } => (Keyword::Sys, args),
        Flow::Jump { args } => (Keyword::Jump, args),
        Flow::Call { args } => (Keyword::Call, args),
        _ => (Keyword::Exit, JumpArgs { address: Address(0), register: None }),
    };
    assert(ws =~= kw(k) + jump_words(args));
    assert(ts[0] == classify_word(keyword_text(k)));
    assert forall|j: int| 0 <= j < rest.len() implies #[trigger] rest[j] == classify_word(jump_words(args)[j]) by {
        assert(rest[j] == ts[j + 1]);
    }
    lemma_jump_args_tokens(args, rest);
}

proof fn lemma_parse_flow(f: Flow)
    requires
        Instruction::Flow(f).wf(),
    ensures
        instruction_spec(read_tokens(instruction_text(Instruction::Flow(f)))) == Ok::<Instruction, ErrorClass>(Instruction::Flow(f)),
{
    let i = Instruction::Flow(f);
    let ws = instruction_words(i);
    match f {
        Flow::Return => {
            let ts = lemma_instruction_tokens(i);
            lemma_flow_words();
            assert(ts[0] == classify_word(keyword_text(Keyword::Return)));
        },
        Flow::Branch { args } => {
            let ts = lemma_instruction_tokens(i);
            lemma_flow_words();
            let rest = ts.skip(1);
            assert(ws =~= kw(Keyword::Branch) + branch_words(args));
            assert(ts[0] == classify_word(keyword_text(Keyword::Branch)));
            assert forall|j: int| 0 <= j < rest.len() implies #[trigger] rest[j] == classify_word(branch_words(args)[j]) by {
                assert(rest[j] == ts[j + 1]);
            }
            lemma_branch_args_tokens(args, rest);
        },
        _ => {
            lemma_parse_jump_like(f);
        },
    }
}

proof fn lemma_parse_index(i: Instruction)
    requires
        i.wf(),
        i is Index,
    ensures
        instruction_spec(read_tokens(instruction_text(i))) == Ok::<Instruction, ErrorClass>(i),
{
    let args = i->Index_args;
    let ws = instruction_words(i);
    let ts = lemma_instruction_tokens(i);
    lemma_index_op_word(args.op);
    lemma_index_source_token(args.source);
    let v = seq!['V' as u8] + keyword_text(Keyword::IndexRegister);
    assert(v.subrange(1, 2) =~= keyword_text(Keyword::IndexRegister));
    assert(ts[0] == classify_word(v));
    let rest = ts.skip(1);
    assert(rest[0] == ts[1] && rest[1] == ts[2]);
}

proof fn lemma_parse_arithmetic(i: Instruction)
    requires
        i.wf(),
        i is Arithmetic,
    ensures
        instruction_spec(read_tokens(instruction_text(i))) == Ok::<Instruction, ErrorClass>(i),
{
    let args = i->Arithmetic_args;
    let ws = instruction_words(i);
    let ts = lemma_instruction_tokens(i);
    lemma_target_token(args.target);
    lemma_binary_op_word(args.op);
    lemma_source_token(args.source);
    assert(ts[0] == classify_word(target_text(args.target)));
    assert(ts[1] == classify_word(keyword_text(binary_op_keyword(args.op))));
    assert(ts[2] == classify_word(source_text(args.source)));
}

/// The words that name a one-register instruction are none of the words
/// tested before them.
proof fn lemma_register_command_words()
    ensures
        classify_word(keyword_text(Keyword::Exit)) == TokenModel::Other(keyword_text(Keyword::Exit)),
        classify_word(keyword_text(Keyword::Bcd)) == TokenModel::Other(keyword_text(Keyword::Bcd)),
        classify_word(keyword_text(Keyword::Font)) == TokenModel::Other(keyword_text(Keyword::Font)),
        classify_word(keyword_text(Keyword::Key)) == TokenModel::Other(keyword_text(Keyword::Key)),
        classify_word(keyword_text(Keyword::Await)) == TokenModel::Other(keyword_text(Keyword::Await)),
        forall|k: Keyword|
            (k == Keyword::Exit || k == Keyword::Graphics || k == Keyword::Return || k == Keyword::Sys
                || k == Keyword::Jump || k == Keyword::Call || k == Keyword::Branch)
            ==> (#[trigger] keyword_text(k) != keyword_text(Keyword::Bcd)
                && keyword_text(k) != keyword_text(Keyword::Font)
                && keyword_text(k) != keyword_text(Keyword::Key)),
        keyword_text(Keyword::Bcd) != keyword_text(Keyword::Font),
        keyword_text(Keyword::Bcd) != keyword_text(Keyword::Key),
        keyword_text(Keyword::Font) != keyword_text(Keyword::Key),
{
    lemma_keyword_word(Keyword::Exit);
    lemma_keyword_word(Keyword::Graphics);
    lemma_keyword_word(Keyword::Return);
    lemma_keyword_word(Keyword::Sys);
    lemma_keyword_word(Keyword::Jump);
    lemma_keyword_word(Keyword::Call);
    lemma_keyword_word(Keyword::Branch);
    lemma_keyword_word(Keyword::Bcd);
    lemma_keyword_word(Keyword::Font);
    lemma_keyword_word(Keyword::Key);
    lemma_keyword_word(Keyword::Await);
}

proof fn lemma_parse_register_command(i: Instruction)
    requires
        i.wf(),
        i is Font || i is KeyAwait || i is BinaryCodedDecimal || i is Exit,
    ensures
        instruction_spec(read_tokens(instruction_text(i))) == Ok::<Instruction, ErrorClass>(i),
{
    let ws = instruction_words(i);
    let ts = lemma_instruction_tokens(i);
    lemma_register_command_words();
    assert(keyword_text(Keyword::Exit) != keyword_text(Keyword::Bcd));
    assert(keyword_text(Keyword::Graphics) != keyword_text(Keyword::Bcd));
    assert(keyword_text(Keyword::Return) != keyword_text(Keyword::Bcd));
    assert(keyword_text(Keyword::Sys) != keyword_text(Keyword::Bcd));
    assert(keyword_text(Keyword::Jump) != keyword_text(Keyword::Bcd));
    assert(keyword_text(Keyword::Call) != keyword_text(Keyword::Bcd));
    assert(keyword_text(Keyword::Branch) != keyword_text(Keyword::Bcd));
    assert(keyword_text(Keyword::Exit) != keyword_text(Keyword::Font));
    assert(keyword_text(Keyword::Graphics) != keyword_text(Keyword::Font));
    assert(keyword_text(Keyword::Return) != keyword_text(Keyword::Font));
    assert(keyword_text(Keyword::Sys) != keyword_text(Keyword::Font));
    assert(keyword_text(Keyword::Jump) != keyword_text(Keyword::Font));
    assert(keyword_text(Keyword::Call) != keyword_text(Keyword::Font));
    assert(keyword_text(Keyword::Branch) != keyword_text(Keyword::Font));
    assert(keyword_text(Keyword::Exit) != keyword_text(Keyword::Key));
    assert(keyword_text(Keyword::Graphics) != keyword_text(Keyword::Key));
    assert(keyword_text(Keyword::Return) != keyword_text(Keyword::Key));
    assert(keyword_text(Keyword::Sys) != keyword_text(Keyword::Key));
    assert(keyword_text(Keyword::Jump) != keyword_text(Keyword::Key));
    assert(keyword_text(Keyword::Call) != keyword_text(Keyword::Key));
    assert(keyword_text(Keyword::Branch) != keyword_text(Keyword::Key));
    match i {
        Instruction::Exit => {
            assert(ts[0] == classify_word(keyword_text(Keyword::Exit)));
        },
        Instruction::Font { args } => {
            lemma_register_token(args.register);
            assert(ts[0] == classify_word(keyword_text(Keyword::Font)));
            assert(ts.skip(1)[0] == ts[1]);
            assert(ws[1] == register_text(args.register));
        },
        Instruction::BinaryCodedDecimal { args } => {
            lemma_register_token(args.register);
            assert(ts[0] == classify_word(keyword_text(Keyword::Bcd)));
            assert(ts.skip(1)[0] == ts[1]);
            assert(ws[1] == register_text(args.register));
        },
        Instruction::KeyAwait { args } => {
            lemma_register_token(args.register);
            assert(ws =~= seq![keyword_text(Keyword::Key), keyword_text(Keyword::Await),
                register_text(args.register)]);
            assert(ts[0] == classify_word(keyword_text(Keyword::Key)));
            assert(ts[1] == classify_word(keyword_text(Keyword::Await)));
            assert(ts.skip(2)[0] == ts[2]);
        },
        _ => {},
    }
}

/// An instruction's text reads back as the instruction.
pub proof fn lemma_text_then_parse(i: Instruction)
    requires
        i.wf(),
    ensures
        instruction_spec(read_tokens(instruction_text(i))) == Ok::<Instruction, ErrorClass>(i),
{
    match i {
        Instruction::Graphics(g) => lemma_parse_graphics(g),
        Instruction::Flow(f) => lemma_parse_flow(f),
        Instruction::Index { .. } => lemma_parse_index(i),
        Instruction::Arithmetic { .. } => lemma_parse_arithmetic(i),
        _ => lemma_parse_register_command(i),
    }
}

/// The text of an opcode, `0x` and four hexadecimal digits, reads as the
/// instruction the opcode decodes to, or as its decoding error.
pub proof fn lemma_opcode_text_then_parse(code: u16)
    ensures
        instruction_spec(read_tokens(word_text(Word(code)))) == classify(decode_result(OpCode(Word(code)))),
{
    lemma_pow16_values();
    let w = word_text(Word(code));
    lemma_hex_token(code as int, 4);
    lemma_parse_hex(code as int, 4, 0xFFFF);
    let ws = seq![w];
    assert(join_words(ws) == w);
    lemma_tokens_of_joined(ws);
    let ts = read_tokens(w);
    assert(ts =~= seq![classify_word(w)]);
}

/// An opcode that decodes to an instruction comes back from that
/// instruction's text: the text parses to the same instruction, whose
/// encoding is the opcode.
pub proof fn lemma_opcode_instruction_text_round_trip(code: u16)
    ensures
        decode_spec(code) matches Some(i) ==> {
            &&& instruction_spec(read_tokens(instruction_text(i))) == Ok::<Instruction, ErrorClass>(i)
            &&& encode_spec(i) == Some(code as int)
        },
{
    lemma_decode_wf(code);
    lemma_decode_then_encode(code);
    if let Some(i) = decode_spec(code) {
        lemma_text_then_parse(i);
    }
}

/// The first token of an instruction's text is a word that is neither empty
/// nor a meta command.
pub proof fn lemma_instruction_first_token(i: Instruction)
    requires
        i.wf(),
    ensures
        read_tokens(instruction_text(i)).len() > 0,
        !(read_tokens(instruction_text(i))[0] is Meta),
        !(read_tokens(instruction_text(i))[0] is Empty),
{
    let ws = instruction_words(i);
    let ts = lemma_instruction_tokens(i);
    lemma_instruction_words_plain(i);
    lemma_command_words();
    assert(ts[0] == classify_word(ws[0]));
    match i {
        Instruction::Index { args } => {
            let v = seq!['V' as u8] + keyword_text(Keyword::IndexRegister);
            assert(v[0] == 'V' as u8);
        },
        Instruction::Arithmetic { args } => {
            lemma_target_token(args.target);
        },
        Instruction::Graphics(_) => {
            assert(ws[0] == keyword_text(Keyword::Graphics));
        },
        Instruction::KeyAwait { .. } => {
            assert(ws[0] == keyword_text(Keyword::Key));
        },
        _ => {},
    }
}

/// A path that a meta command can name: one word without whitespace of any
/// kind, read as a plain word.
pub open spec fn is_path_word(p: Seq<u8>) -> bool {
    is_plain_word(p) && classify_word(p) == TokenModel::Other(p)
}

/// The meta commands whose text reads back as them: those whose paths are
/// path words and whose load address, if any, is a twelve-bit address.
pub open spec fn meta_text_reads_back(m: MetaCommandModel) -> bool {
    match m {
        MetaCommandModel::LoadRom(p, a) => is_path_word(p) && (a matches Some(x) ==> x.wf()),
        MetaCommandModel::DumpMachine(p) | MetaCommandModel::LoadMachine(p) => is_path_word(p),
        _ => true,
    }
}

/// The meta command words, their first two characters and their lengths.
proof fn lemma_meta_words()
    ensures
        classify_word(keyword_text(Keyword::Reset)) == TokenModel::Meta(keyword_text(Keyword::Reset)),
        classify_word(keyword_text(Keyword::LoadRom)) == TokenModel::Meta(keyword_text(Keyword::LoadRom)),
        classify_word(keyword_text(Keyword::UnloadRom)) == TokenModel::Meta(keyword_text(Keyword::UnloadRom)),
        classify_word(keyword_text(Keyword::Dump)) == TokenModel::Meta(keyword_text(Keyword::Dump)),
        classify_word(keyword_text(Keyword::LoadMachine)) == TokenModel::Meta(keyword_text(Keyword::LoadMachine)),
        classify_word(keyword_text(Keyword::Tick)) == TokenModel::Meta(keyword_text(Keyword::Tick)),
        classify_word(keyword_text(Keyword::Play)) == TokenModel::Meta(keyword_text(Keyword::Play)),
        classify_word(keyword_text(Keyword::Pause)) == TokenModel::Meta(keyword_text(Keyword::Pause)),
        classify_word(keyword_text(Keyword::PlayPause)) == TokenModel::Meta(keyword_text(Keyword::PlayPause)),
        is_plain_word(keyword_text(Keyword::Reset)),
        is_plain_word(keyword_text(Keyword::LoadRom)),
        is_plain_word(keyword_text(Keyword::UnloadRom)),
        is_plain_word(keyword_text(Keyword::Dump)),
        is_plain_word(keyword_text(Keyword::LoadMachine)),
        is_plain_word(keyword_text(Keyword::Tick)),
        is_plain_word(keyword_text(Keyword::Play)),
        is_plain_word(keyword_text(Keyword::Pause)),
        is_plain_word(keyword_text(Keyword::PlayPause)),
{
    lemma_keyword_word(Keyword::Reset);
    lemma_keyword_word(Keyword::LoadRom);
    lemma_keyword_word(Keyword::UnloadRom);
    lemma_keyword_word(Keyword::Dump);
    lemma_keyword_word(Keyword::LoadMachine);
    lemma_keyword_word(Keyword::Tick);
    lemma_keyword_word(Keyword::Play);
    lemma_keyword_word(Keyword::Pause);
    lemma_keyword_word(Keyword::PlayPause);
}

/// The meta command words differ from one another.
proof fn lemma_meta_words_differ()
    ensures
        forall|a: Keyword, b: Keyword|
            (a == Keyword::Reset || a == Keyword::LoadRom || a == Keyword::UnloadRom || a == Keyword::Dump
                || a == Keyword::LoadMachine || a == Keyword::Tick || a == Keyword::Play
                || a == Keyword::Pause || a == Keyword::PlayPause)
            && (b == Keyword::Reset || b == Keyword::LoadRom || b == Keyword::UnloadRom || b == Keyword::Dump
                || b == Keyword::LoadMachine || b == Keyword::Tick || b == Keyword::Play
                || b == Keyword::Pause || b == Keyword::PlayPause)
            && a != b ==> #[trigger] keyword_text(a) != #[trigger] keyword_text(b),
{
    lemma_keyword_word(Keyword::Reset);
    lemma_keyword_word(Keyword::LoadRom);
    lemma_keyword_word(Keyword::UnloadRom);
    lemma_keyword_word(Keyword::Dump);
    lemma_keyword_word(Keyword::LoadMachine);
    lemma_keyword_word(Keyword::Tick);
    lemma_keyword_word(Keyword::Play);
    lemma_keyword_word(Keyword::Pause);
    lemma_keyword_word(Keyword::PlayPause);
}

/// The tokens of `:reset` and a space.
proof fn lemma_reset_tokens()
    ensures
        read_tokens(meta_command_text(MetaCommandModel::Reset(None)))
            == seq![TokenModel::Meta(keyword_text(Keyword::Reset))],
{
    lemma_keyword_word(Keyword::Reset);
    let ws = meta_command_words(MetaCommandModel::Reset(None));
    let r = keyword_text(Keyword::Reset);
    assert(ws =~= seq![r, Seq::<u8>::empty()]);
    assert(join_words(ws) =~= r + seq![' ' as u8]) by {
        let init = ws.drop_last();
        assert(init =~= seq![r]);
        assert(join_words(init) == r);
    }
    lemma_words_so_far_space(r);
    lemma_words_of_joined(seq![r]);
    assert(join_words(seq![r]) == r);
    assert(is_ascii(r + seq![' ' as u8])) by {
        assert(is_ascii(r));
    }
    lemma_ascii_normal(r + seq![' ' as u8]);
    assert(tokenize(join_words(ws)) =~= seq![classify_word(r)]);
    assert(read_tokens(join_words(ws)) =~= seq![classify_word(r)]);
}

proof fn lemma_parse_reset(state: Option<MachineState>)
    ensures
        command_spec(read_tokens(meta_command_text(MetaCommandModel::Reset(state))))
            == Ok::<Option<CommandModel>, ErrorClass>(Some(CommandModel::Meta(MetaCommandModel::Reset(state)))),
{
    let m = MetaCommandModel::Reset(state);
    lemma_keyword_word(Keyword::Reset);
    let r = keyword_text(Keyword::Reset);
    match state {
        None => {
            lemma_reset_tokens();
            let ts = read_tokens(meta_command_text(m));
            assert(ts.skip(1).len() == 0);
        },
        Some(s) => {
            lemma_keyword_word(Keyword::Demo);
            let ws = meta_command_words(m);
            let d = keyword_text(Keyword::Demo);
            assert(ws =~= seq![r, d]);
            assert forall|k: int| 0 <= k < ws.len() implies is_plain_word(#[trigger] ws[k]) by {}
            lemma_tokens_of_joined(ws);
            let ts = ws.map_values(|w: Seq<u8>| classify_word(w));
            assert(ts[0] == classify_word(r));
            assert(ts.skip(1)[0] == ts[1]);
            assert(ts[1] == classify_word(d));
        },
    }
}

proof fn lemma_parse_path_command(m: MetaCommandModel)
    requires
        meta_text_reads_back(m),
        m is LoadRom || m is DumpMachine || m is LoadMachine,
        !(m matches MetaCommandModel::LoadRom(_, Some(_))),
    ensures
        command_spec(read_tokens(meta_command_text(m))) == Ok::<Option<CommandModel>, ErrorClass>(
            Some(CommandModel::Meta(m))),
{
    lemma_meta_words();
    lemma_meta_words_differ();
    let ws = meta_command_words(m);
    let (k, p) = match m {
        MetaCommandModel::LoadRom(p, _) => (Keyword::LoadRom, p),
        MetaCommandModel::DumpMachine(p) => (Keyword::Dump, p),
        MetaCommandModel::LoadMachine(p) => (Keyword::LoadMachine, p),
        _ => (Keyword::Tick, Seq::empty()),
    };
    assert(ws =~= seq![keyword_text(k), p]);
    assert forall|j: int| 0 <= j < ws.len() implies is_plain_word(#[trigger] ws[j]) by {}
    lemma_tokens_of_joined(ws);
    let ts = ws.map_values(|w: Seq<u8>| classify_word(w));
    assert(ts[0] == classify_word(keyword_text(k)));
    assert(ts.skip(1)[0] == ts[1]);
    assert(ts[1] == classify_word(p));
    assert(tok(ts, 2) is None);
}

proof fn lemma_parse_load_at(path: Seq<u8>, address: Address)
    requires
        is_path_word(path),
        address.wf(),
    ensures
        command_spec(read_tokens(meta_command_text(MetaCommandModel::LoadRom(path, Some(address)))))
            == Ok::<Option<CommandModel>, ErrorClass>(
            Some(CommandModel::Meta(MetaCommandModel::LoadRom(path, Some(address))))),
{
    let m = MetaCommandModel::LoadRom(path, Some(address));
    lemma_meta_words();
    lemma_address_token(address);
    let ws = meta_command_words(m);
    let k = keyword_text(Keyword::LoadRom);
    let a = address_text(address);
    assert(ws =~= seq![k, path, a]);
    assert forall|j: int| 0 <= j < ws.len() implies is_plain_word(#[trigger] ws[j]) by {}
    lemma_tokens_of_joined(ws);
    let ts = ws.map_values(|w: Seq<u8>| classify_word(w));
    assert(ts[0] == classify_word(k));
    assert(ts.skip(1)[0] == ts[1]);
    assert(ts[1] == classify_word(path));
    assert(tok(ts, 2) == Some(classify_word(a)));
}

proof fn lemma_parse_bare_meta(m: MetaCommandModel)
    requires
        m is UnloadRom || m is Tick || m is Play || m is Pause || m is PlayPause,
    ensures
        command_spec(read_tokens(meta_command_text(m))) == Ok::<Option<CommandModel>, ErrorClass>(
            Some(CommandModel::Meta(m))),
{
    lemma_meta_words();
    lemma_meta_words_differ();
    let ws = meta_command_words(m);
    let k = match m {
        MetaCommandModel::UnloadRom => Keyword::UnloadRom,
        MetaCommandModel::Tick => Keyword::Tick,
        MetaCommandModel::Play => Keyword::Play,
        MetaCommandModel::Pause => Keyword::Pause,
        _ => Keyword::PlayPause,
    };
    assert(ws =~= seq![keyword_text(k)]);
    assert forall|j: int| 0 <= j < ws.len() implies is_plain_word(#[trigger] ws[j]) by {}
    lemma_tokens_of_joined(ws);
    let ts = ws.map_values(|w: Seq<u8>| classify_word(w));
    assert(ts[0] == classify_word(keyword_text(k)));
}

/// A meta command's text reads back as the meta command, where
/// `meta_text_reads_back` holds.
pub proof fn lemma_meta_text_then_parse(m: MetaCommandModel)
    requires
        meta_text_reads_back(m),
    ensures
        command_spec(read_tokens(meta_command_text(m))) == Ok::<Option<CommandModel>, ErrorClass>(
            Some(CommandModel::Meta(m))),
{
    match m {
        MetaCommandModel::Reset(state) => lemma_parse_reset(state),
        MetaCommandModel::LoadRom(path, Some(address)) => lemma_parse_load_at(path, address),
        MetaCommandModel::LoadRom(..) | MetaCommandModel::DumpMachine(_)
        | MetaCommandModel::LoadMachine(_) => lemma_parse_path_command(m),
        _ => lemma_parse_bare_meta(m),
    }
}

/// A command's text reads back as the command: an instruction's always, a
/// meta command's where `meta_text_reads_back` holds.
pub proof fn lemma_command_text_then_parse(c: CommandModel)
    requires
        match c {
            CommandModel::Instruction(i) => i.wf(),
            CommandModel::Meta(m) => meta_text_reads_back(m),
        },
    ensures
        command_spec(read_tokens(command_text(c))) == Ok::<Option<CommandModel>, ErrorClass>(Some(c)),
{
    match c {
        CommandModel::Instruction(i) => {
            lemma_text_then_parse(i);
            lemma_instruction_first_token(i);
        },
        CommandModel::Meta(m) => lemma_meta_text_then_parse(m),
    }
}

} // verus!
