use vstd::prelude::*;

verus! {

/// The fixed words of the assembler syntax.
#[derive(Clone, Copy, Debug, PartialEq, Eq, Structural)]
pub enum Keyword {
    Exit,
    Graphics,
    Clear,
    Draw,
    Return,
    Sys,
    Jump,
    Call,
    Branch,
    Bcd,
    Font,
    Key,
    Await,
    Not,
    Assign,
    Add,
    AddWrapping,
    Subtract,
    SubtractAlt,
    BitAnd,
    BitOr,
    BitXor,
    ShiftLeft,
    ShiftRight,
    Random,
    DelayTimer,
    SoundTimer,
    IndexRegister,
    Demo,
    Reset,
    LoadRom,
    UnloadRom,
    Dump,
    LoadMachine,
    Tick,
    Play,
    Pause,
    PlayPause,
}

/// The bytes of a keyword.
pub open spec fn keyword_text(k: Keyword) -> Seq<u8> {
    match k {
        Keyword::Exit => seq!['e' as u8, 'x' as u8, 'i' as u8, 't' as u8],
        Keyword::Graphics => seq!['g' as u8, 'r' as u8, 'a' as u8, 'p' as u8, 'h' as u8, 'i' as u8, 'c' as u8, 's' as u8],
        Keyword::Clear => seq!['c' as u8, 'l' as u8, 'e' as u8, 'a' as u8, 'r' as u8],
        Keyword::Draw => seq!['d' as u8, 'r' as u8, 'a' as u8, 'w' as u8],
        Keyword::Return => seq!['r' as u8, 'e' as u8, 't' as u8, 'u' as u8, 'r' as u8, 'n' as u8],
        Keyword::Sys => seq!['s' as u8, 'y' as u8, 's' as u8],
        Keyword::Jump => seq!['j' as u8, 'u' as u8, 'm' as u8, 'p' as u8],
        Keyword::Call => seq!['c' as u8, 'a' as u8, 'l' as u8, 'l' as u8],
        Keyword::Branch => seq!['b' as u8, 'r' as u8, 'a' as u8, 'n' as u8, 'c' as u8, 'h' as u8],
        Keyword::Bcd => seq!['b' as u8, 'c' as u8, 'd' as u8],
        Keyword::Font => seq!['f' as u8, 'o' as u8, 'n' as u8, 't' as u8],
        Keyword::Key => seq!['k' as u8, 'e' as u8, 'y' as u8],
        Keyword::Await => seq!['a' as u8, 'w' as u8, 'a' as u8, 'i' as u8, 't' as u8],
        Keyword::Not => seq!['!' as u8],
        Keyword::Assign => seq!['=' as u8],
        Keyword::Add => seq!['+' as u8, '=' as u8],
        Keyword::AddWrapping => seq!['+' as u8, '~' as u8],
        Keyword::Subtract => seq!['-' as u8, '=' as u8],
        Keyword::SubtractAlt => seq!['-' as u8, '~' as u8],
        Keyword::BitAnd => seq!['&' as u8, '=' as u8],
        Keyword::BitOr => seq!['|' as u8, '=' as u8],
        Keyword::BitXor => seq!['^' as u8, '=' as u8],
        Keyword::ShiftLeft => seq!['<' as u8, '<' as u8, '=' as u8],
        Keyword::ShiftRight => seq!['>' as u8, '>' as u8, '=' as u8],
        Keyword::Random => seq!['?' as u8, '=' as u8],
        Keyword::DelayTimer => seq!['T' as u8],
        Keyword::SoundTimer => seq!['S' as u8],
        Keyword::IndexRegister => seq!['I' as u8],
        Keyword::Demo => seq!['d' as u8, 'e' as u8, 'm' as u8, 'o' as u8],
        Keyword::Reset => seq![':' as u8, 'r' as u8, 'e' as u8, 's' as u8, 'e' as u8, 't' as u8],
        Keyword::LoadRom => seq![':' as u8, 'l' as u8, 'o' as u8, 'a' as u8, 'd' as u8],
        Keyword::UnloadRom => seq![':' as u8, 'u' as u8, 'n' as u8, 'l' as u8, 'o' as u8, 'a' as u8, 'd' as u8],
        Keyword::Dump => seq![':' as u8, 'd' as u8, 'u' as u8, 'm' as u8, 'p' as u8],
        Keyword::LoadMachine => seq![':' as u8, 'l' as u8, 'o' as u8, 'a' as u8, 'd' as u8, '-' as u8, 'm' as u8, 'a' as u8, 'c' as u8, 'h' as u8, 'i' as u8, 'n' as u8, 'e' as u8],
        Keyword::Tick => seq![':' as u8, 't' as u8, 'i' as u8, 'c' as u8, 'k' as u8],
        Keyword::Play => seq![':' as u8, 'p' as u8, 'l' as u8, 'a' as u8, 'y' as u8],
        Keyword::Pause => seq![':' as u8, 'p' as u8, 'a' as u8, 'u' as u8, 's' as u8, 'e' as u8],
        Keyword::PlayPause => seq![':' as u8, 'p' as u8, 'l' as u8, 'a' as u8, 'y' as u8, '-' as u8, 'p' as u8, 'a' as u8, 'u' as u8, 's' as u8, 'e' as u8],
    }
}

/// The bytes of a keyword, as a vector.
pub fn keyword_bytes(k: Keyword) -> (v: Vec<u8>)
    ensures
        v@ == keyword_text(k),
{
    let v: Vec<u8> = match k {
        Keyword::Exit => vec!['e' as u8, 'x' as u8, 'i' as u8, 't' as u8],
        Keyword::Graphics => vec!['g' as u8, 'r' as u8, 'a' as u8, 'p' as u8, 'h' as u8, 'i' as u8, 'c' as u8, 's' as u8],
        Keyword::Clear => vec!['c' as u8, 'l' as u8, 'e' as u8, 'a' as u8, 'r' as u8],
        Keyword::Draw => vec!['d' as u8, 'r' as u8, 'a' as u8, 'w' as u8],
        Keyword::Return => vec!['r' as u8, 'e' as u8, 't' as u8, 'u' as u8, 'r' as u8, 'n' as u8],
        Keyword::Sys => vec!['s' as u8, 'y' as u8, 's' as u8],
        Keyword::Jump => vec!['j' as u8, 'u' as u8, 'm' as u8, 'p' as u8],
        Keyword::Call => vec!['c' as u8, 'a' as u8, 'l' as u8, 'l' as u8],
        Keyword::Branch => vec!['b' as u8, 'r' as u8, 'a' as u8, 'n' as u8, 'c' as u8, 'h' as u8],
        Keyword::Bcd => vec!['b' as u8, 'c' as u8, 'd' as u8],
        Keyword::Font => vec!['f' as u8, 'o' as u8, 'n' as u8, 't' as u8],
        Keyword::Key => vec!['k' as u8, 'e' as u8, 'y' as u8],
        Keyword::Await => vec!['a' as u8, 'w' as u8, 'a' as u8, 'i' as u8, 't' as u8],
        Keyword::Not => vec!['!' as u8],
        Keyword::Assign => vec!['=' as u8],
        Keyword::Add => vec!['+' as u8, '=' as u8],
        Keyword::AddWrapping => vec!['+' as u8, '~' as u8],
        Keyword::Subtract => vec!['-' as u8, '=' as u8],
        Keyword::SubtractAlt => vec!['-' as u8, '~' as u8],
        Keyword::BitAnd => vec!['&' as u8, '=' as u8],
        Keyword::BitOr => vec!['|' as u8, '=' as u8],
        Keyword::BitXor => vec!['^' as u8, '=' as u8],
        Keyword::ShiftLeft => vec!['<' as u8, '<' as u8, '=' as u8],
        Keyword::ShiftRight => vec!['>' as u8, '>' as u8, '=' as u8],
        Keyword::Random => vec!['?' as u8, '=' as u8],
        Keyword::DelayTimer => vec!['T' as u8],
        Keyword::SoundTimer => vec!['S' as u8],
        Keyword::IndexRegister => vec!['I' as u8],
        Keyword::Demo => vec!['d' as u8, 'e' as u8, 'm' as u8, 'o' as u8],
        Keyword::Reset => vec![':' as u8, 'r' as u8, 'e' as u8, 's' as u8, 'e' as u8, 't' as u8],
        Keyword::LoadRom => vec![':' as u8, 'l' as u8, 'o' as u8, 'a' as u8, 'd' as u8],
        Keyword::UnloadRom => vec![':' as u8, 'u' as u8, 'n' as u8, 'l' as u8, 'o' as u8, 'a' as u8, 'd' as u8],
        Keyword::Dump => vec![':' as u8, 'd' as u8, 'u' as u8, 'm' as u8, 'p' as u8],
        Keyword::LoadMachine => vec![':' as u8, 'l' as u8, 'o' as u8, 'a' as u8, 'd' as u8, '-' as u8, 'm' as u8, 'a' as u8, 'c' as u8, 'h' as u8, 'i' as u8, 'n' as u8, 'e' as u8],
        Keyword::Tick => vec![':' as u8, 't' as u8, 'i' as u8, 'c' as u8, 'k' as u8],
        Keyword::Play => vec![':' as u8, 'p' as u8, 'l' as u8, 'a' as u8, 'y' as u8],
        Keyword::Pause => vec![':' as u8, 'p' as u8, 'a' as u8, 'u' as u8, 's' as u8, 'e' as u8],
        Keyword::PlayPause => vec![':' as u8, 'p' as u8, 'l' as u8, 'a' as u8, 'y' as u8, '-' as u8, 'p' as u8, 'a' as u8, 'u' as u8, 's' as u8, 'e' as u8],
    };
    assert(v@ =~= keyword_text(k));
    v
}

/// Whether two byte strings are equal.
pub fn same_bytes(a: &[u8], b: &[u8]) -> (r: bool)
    ensures
        r == (a@ == b@),
{
    if a.len() != b.len() {
        return false;
    }
    let mut i: usize = 0;
    while i < a.len()
        invariant
            a@.len() == b@.len(),
            i <= a@.len(),
            forall|k: int| 0 <= k < i ==> a@[k] == b@[k],
        decreases a@.len() - i,
    {
        if a[i] != b[i] {
            return false;
        }
        i = i + 1;
    }
    assert(a@ =~= b@);
    true
}

/// Whether `text` is the keyword `k`.
pub fn is_keyword(text: &[u8], k: Keyword) -> (r: bool)
    ensures
        r == (text@ == keyword_text(k)),
{
    let word = keyword_bytes(k);
    same_bytes(text, word.as_slice())
}

} // verus!
