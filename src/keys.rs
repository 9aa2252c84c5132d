use vstd::prelude::*;

verus! {

/// The keys that the launcher tells apart: printable keys, the editing and
/// navigation keys, and `Other` for every key that has no meaning here.
#[derive(Clone, Copy, Debug, PartialEq, Eq, Structural)]
pub enum Keycode {
    A, B, C, D, E, F, G, H,
    I, J, K, L, M, N, O, P,
    Q, R, S, T, U, V, W, X,
    Y, Z, Num0, Num1, Num2, Num3, Num4, Num5,
    Num6, Num7, Num8, Num9, Minus, Equals, LeftBracket, RightBracket,
    Backslash, Semicolon, Quote, Comma, Period, Slash, Backquote, Space,
    Backspace, Delete, Left, Right, Tab, Return, Escape, LShift,
    RShift, Other,
}

/// The characters a printable key types, without and with shift held.
pub open spec fn key_chars(keycode: Keycode) -> Option<(char, char)> {
    match keycode {
        Keycode::A => Some(('a', 'A')),
        Keycode::B => Some(('b', 'B')),
        Keycode::C => Some(('c', 'C')),
        Keycode::D => Some(('d', 'D')),
        Keycode::E => Some(('e', 'E')),
        Keycode::F => Some(('f', 'F')),
        Keycode::G => Some(('g', 'G')),
        Keycode::H => Some(('h', 'H')),
        Keycode::I => Some(('i', 'I')),
        Keycode::J => Some(('j', 'J')),
        Keycode::K => Some(('k', 'K')),
        Keycode::L => Some(('l', 'L')),
        Keycode::M => Some(('m', 'M')),
        Keycode::N => Some(('n', 'N')),
        Keycode::O => Some(('o', 'O')),
        Keycode::P => Some(('p', 'P')),
        Keycode::Q => Some(('q', 'Q')),
        Keycode::R => Some(('r', 'R')),
        Keycode::S => Some(('s', 'S')),
        Keycode::T => Some(('t', 'T')),
        Keycode::U => Some(('u', 'U')),
        Keycode::V => Some(('v', 'V')),
        Keycode::W => Some(('w', 'W')),
        Keycode::X => Some(('x', 'X')),
        Keycode::Y => Some(('y', 'Y')),
        Keycode::Z => Some(('z', 'Z')),
        Keycode::Num0 => Some(('0', ')')),
        Keycode::Num1 => Some(('1', '!')),
        Keycode::Num2 => Some(('2', '@')),
        Keycode::Num3 => Some(('3', '#')),
        Keycode::Num4 => Some(('4', '$')),
        Keycode::Num5 => Some(('5', '%')),
        Keycode::Num6 => Some(('6', '^')),
        Keycode::Num7 => Some(('7', '&')),
        Keycode::Num8 => Some(('8', '*')),
        Keycode::Num9 => Some(('9', '(')),
        Keycode::Minus => Some(('-', '_')),
        Keycode::Equals => Some(('=', '+')),
        Keycode::LeftBracket => Some(('[', '{')),
        Keycode::RightBracket => Some((']', '}')),
        Keycode::Backslash => Some(('\\', '|')),
        Keycode::Semicolon => Some((';', ':')),
        Keycode::Quote => Some(('\'', '"')),
        Keycode::Comma => Some((',', '<')),
        Keycode::Period => Some(('.', '>')),
        Keycode::Slash => Some(('/', '?')),
        Keycode::Backquote => Some(('`', '~')),
        Keycode::Space => Some((' ', ' ')),
        _ => None,
    }
}

/// The character a key types under the given shift state, if any.
pub open spec fn key_char(keycode: Keycode, shift: bool) -> Option<char> {
    match key_chars(keycode) {
        Some((plain, shifted)) => Some(if shift { shifted } else { plain }),
        None => None,
    }
}

/// Looks a key up in the fixed US keyboard table: the character it types,
/// with shift held or not, or `None` for a key that types nothing.
pub fn keycode_to_char(keycode: Keycode, shift: bool) -> (r: Option<char>)
    ensures
        r == key_char(keycode, shift),
{
    let (plain, shifted) = match keycode {
        Keycode::A => ('a', 'A'),
        Keycode::B => ('b', 'B'),
        Keycode::C => ('c', 'C'),
        Keycode::D => ('d', 'D'),
        Keycode::E => ('e', 'E'),
        Keycode::F => ('f', 'F'),
        Keycode::G => ('g', 'G'),
        Keycode::H => ('h', 'H'),
        Keycode::I => ('i', 'I'),
        Keycode::J => ('j', 'J'),
        Keycode::K => ('k', 'K'),
        Keycode::L => ('l', 'L'),
        Keycode::M => ('m', 'M'),
        Keycode::N => ('n', 'N'),
        Keycode::O => ('o', 'O'),
        Keycode::P => ('p', 'P'),
        Keycode::Q => ('q', 'Q'),
        Keycode::R => ('r', 'R'),
        Keycode::S => ('s', 'S'),
        Keycode::T => ('t', 'T'),
        Keycode::U => ('u', 'U'),
        Keycode::V => ('v', 'V'),
        Keycode::W => ('w', 'W'),
        Keycode::X => ('x', 'X'),
        Keycode::Y => ('y', 'Y'),
        Keycode::Z => ('z', 'Z'),
        Keycode::Num0 => ('0', ')'),
        Keycode::Num1 => ('1', '!'),
        Keycode::Num2 => ('2', '@'),
        Keycode::Num3 => ('3', '#'),
        Keycode::Num4 => ('4', '$'),
        Keycode::Num5 => ('5', '%'),
        Keycode::Num6 => ('6', '^'),
        Keycode::Num7 => ('7', '&'),
        Keycode::Num8 => ('8', '*'),
        Keycode::Num9 => ('9', '('),
        Keycode::Minus => ('-', '_'),
        Keycode::Equals => ('=', '+'),
        Keycode::LeftBracket => ('[', '{'),
        Keycode::RightBracket => (']', '}'),
        Keycode::Backslash => ('\\', '|'),
        Keycode::Semicolon => (';', ':'),
        Keycode::Quote => ('\'', '"'),
        Keycode::Comma => (',', '<'),
        Keycode::Period => ('.', '>'),
        Keycode::Slash => ('/', '?'),
        Keycode::Backquote => ('`', '~'),
        Keycode::Space => (' ', ' '),
        _ => return None,
    };
    Some(if shift { shifted } else { plain })
}

} // verus!
