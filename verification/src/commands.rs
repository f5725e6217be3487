//! Slash commands: splitting a command line into its name and arguments,
//! and reading the arguments of `/tp` and `/gamemode`.

use vstd::prelude::*;

verus! {

/// Unicode White_Space, the set `char::is_whitespace` tests.
pub open spec fn is_white_space(c: char) -> bool {
    let u = c as u32;
    ||| 0x09 <= u <= 0x0D
    ||| u == 0x20
    ||| u == 0x85
    ||| u == 0xA0
    ||| u == 0x1680
    ||| 0x2000 <= u <= 0x200A
    ||| u == 0x2028
    ||| u == 0x2029
    ||| u == 0x202F
    ||| u == 0x205F
    ||| u == 0x3000
}

/// Whether `c` is white space.
pub fn white_space(c: char) -> (r: bool)
    ensures
        r == is_white_space(c),
{
    let u = c as u32;
    (0x09 <= u && u <= 0x0D) || u == 0x20 || u == 0x85 || u == 0xA0 || u == 0x1680 || (0x2000 <= u
        && u <= 0x200A) || u == 0x2028 || u == 0x2029 || u == 0x202F || u == 0x205F || u == 0x3000
}

/// The index of the first space at or after `i`, if any.
pub open spec fn first_space_from(s: Seq<char>, i: int) -> Option<int>
    decreases s.len() - i,
{
    if i >= s.len() {
        None
    } else if s[i] == ' ' {
        Some(i)
    } else {
        first_space_from(s, i + 1)
    }
}

/// The command name: everything before the first space.
pub open spec fn command_name(s: Seq<char>) -> Seq<char> {
    match first_space_from(s, 0) {
        Some(i) => s.take(i),
        None => s,
    }
}

/// The command arguments: everything after the first space, or nothing.
pub open spec fn command_args(s: Seq<char>) -> Seq<char> {
    match first_space_from(s, 0) {
        Some(i) => s.skip(i + 1),
        None => Seq::empty(),
    }
}

/// A parsed command line.
pub enum Command {
    /// `/say <message>`.
    Say {
        /// The message.
        message: Vec<char>,
    },
    /// `/tp <x> <y> <z>`.
    Tp {
        /// The arguments.
        args: Vec<char>,
    },
    /// `/gamemode <mode>`.
    Gamemode {
        /// The arguments.
        args: Vec<char>,
    },
    /// `/help`.
    Help,
    /// Any other command.
    Unknown {
        /// The command name.
        name: Vec<char>,
    },
}

/// The command a line stands for.
pub open spec fn command_spec(s: Seq<char>) -> (Seq<char>, Seq<char>) {
    (command_name(s), command_args(s))
}

/// Whether two char sequences are equal.
pub fn chars_equal(a: &Vec<char>, b: &Vec<char>) -> (r: bool)
    ensures
        r == (a@ == b@),
{
    if a.len() != b.len() {
        return false;
    }
    let mut i: usize = 0;
    while i < a.len()
        invariant
            a@.len() == b@.len(),
            i <= a@.len(),
            forall|j: int| 0 <= j < i ==> a@[j] == b@[j],
        decreases a@.len() - i,
    {
        if a[i] != b[i] {
            return false;
        }
        i = i + 1;
    }
    assert(a@ =~= b@);
    true
}

fn copy_range(s: &Vec<char>, start: usize, end: usize) -> (r: Vec<char>)
    requires
        start <= end <= s@.len(),
    ensures
        r@ == s@.subrange(start as int, end as int),
{
    let mut out: Vec<char> = Vec::new();
    let mut i: usize = start;
    while i < end
        invariant
            start <= i <= end <= s@.len(),
            out@ == s@.subrange(start as int, i as int),
        decreases end - i,
    {
        out.push(s[i]);
        assert(s@.subrange(start as int, i as int + 1) == s@.subrange(start as int, i as int).push(s@[i as int]));
        i = i + 1;
    }
    out
}

/// Splits a command line (without the slash) at its first space into the
/// command name and its arguments, and names the command: `say`, `tp`,
/// `gamemode` and `help` are known, anything else is unknown.
pub fn parse_command(line: &Vec<char>) -> (r: Command)
    ensures
        ({
            let name = command_name(line@);
            let args = command_args(line@);
            if name == seq!['s', 'a', 'y'] {
                r matches Command::Say { message } && message@ == args
            } else if name == seq!['t', 'p'] {
                r matches Command::Tp { args: a } && a@ == args
            } else if name == seq!['g', 'a', 'm', 'e', 'm', 'o', 'd', 'e'] {
                r matches Command::Gamemode { args: a } && a@ == args
            } else if name == seq!['h', 'e', 'l', 'p'] {
                r is Help
            } else {
                r matches Command::Unknown { name: n } && n@ == name
            }
        }),
{
    let mut i: usize = 0;
    let mut found = false;
    while i < line.len() && !found
        invariant
            i <= line@.len(),
            first_space_from(line@, 0) == (if found { Some(i as int) } else { first_space_from(line@, i as int) }),
            found ==> i < line@.len(),
        decreases line@.len() - i + (if found { 0int } else { 1int }),
    {
        if line[i] == ' ' {
            found = true;
        } else {
            i = i + 1;
        }
    }
    let (name, args) = if found {
        (copy_range(line, 0, i), copy_range(line, i + 1, line.len()))
    } else {
        (copy_range(line, 0, line.len()), Vec::new())
    };
    proof {
        assert(line@.subrange(0, line@.len() as int) == line@);
        if found {
            assert(line@.take(i as int) == line@.subrange(0, i as int));
            assert(line@.skip(i + 1) == line@.subrange(i + 1, line@.len() as int));
        } else {
            assert(first_space_from(line@, i as int) is None);
        }
    }
    if chars_equal(&name, &vec!['s', 'a', 'y']) {
        Command::Say { message: args }
    } else if chars_equal(&name, &vec!['t', 'p']) {
        Command::Tp { args }
    } else if chars_equal(&name, &vec!['g', 'a', 'm', 'e', 'm', 'o', 'd', 'e']) {
        Command::Gamemode { args }
    } else if chars_equal(&name, &vec!['h', 'e', 'l', 'p']) {
        Command::Help
    } else {
        Command::Unknown { name }
    }
}

/// The white-space separated words of `s` from position `i`, given the
/// word `cur` being read and the words `acc` already finished.
pub open spec fn words_from(s: Seq<char>, i: int, cur: Seq<char>, acc: Seq<Seq<char>>) -> Seq<Seq<char>>
    decreases s.len() - i,
{
    if i >= s.len() {
        if cur.len() > 0 { acc.push(cur) } else { acc }
    } else if is_white_space(s[i]) {
        words_from(s, i + 1, Seq::empty(), if cur.len() > 0 { acc.push(cur) } else { acc })
    } else {
        words_from(s, i + 1, cur.push(s[i]), acc)
    }
}

/// The white-space separated words of `s`, in order.
pub open spec fn words(s: Seq<char>) -> Seq<Seq<char>> {
    words_from(s, 0, Seq::empty(), Seq::empty())
}

/// Splits `s` into its white-space separated words.
pub fn split_words(s: &Vec<char>) -> (r: Vec<Vec<char>>)
    ensures
        r@.len() == words(s@).len(),
        forall|k: int| 0 <= k < r@.len() ==> (#[trigger] r@[k])@ == words(s@)[k],
{
    let mut acc: Vec<Vec<char>> = Vec::new();
    let mut cur: Vec<char> = Vec::new();
    let ghost gacc: Seq<Seq<char>> = Seq::empty();
    let mut i: usize = 0;
    while i < s.len()
        invariant
            i <= s@.len(),
            acc@.len() == gacc.len(),
            forall|k: int| 0 <= k < acc@.len() ==> (#[trigger] acc@[k])@ == gacc[k],
            words_from(s@, i as int, cur@, gacc) == words(s@),
        decreases s@.len() - i,
    {
        let c = s[i];
        if white_space(c) {
            if cur.len() > 0 {
                proof {
                    gacc = gacc.push(cur@);
                }
                acc.push(cur);
                cur = Vec::new();
            } else {
                cur = Vec::new();
            }
        } else {
            cur.push(c);
        }
        i = i + 1;
    }
    if cur.len() > 0 {
        proof {
            gacc = gacc.push(cur@);
        }
        acc.push(cur);
    }
    acc
}

/// The three coordinate words of `/tp` arguments; `None` unless there
/// are exactly three words (the usage message is due then).
pub fn tp_coordinates(args: &Vec<char>) -> (r: Option<Vec<Vec<char>>>)
    ensures
        match r {
            Some(ws) => words(args@).len() == 3 && ws@.len() == 3 && forall|k: int|
                0 <= k < 3 ==> (#[trigger] ws@[k])@ == words(args@)[k],
            None => words(args@).len() != 3,
        },
{
    let ws = split_words(args);
    if ws.len() == 3 {
        Some(ws)
    } else {
        None
    }
}

/// The position of the first non-white-space char at or after `i`.
pub open spec fn skip_space_from(s: Seq<char>, i: int) -> int
    decreases s.len() - i,
{
    if i >= s.len() {
        s.len() as int
    } else if is_white_space(s[i]) {
        skip_space_from(s, i + 1)
    } else {
        i
    }
}

/// One past the last non-white-space char before position `j`, at least `lo`.
pub open spec fn trim_end_from(s: Seq<char>, lo: int, j: int) -> int
    decreases j - lo,
{
    if j <= lo {
        lo
    } else if is_white_space(s[j - 1]) {
        trim_end_from(s, lo, j - 1)
    } else {
        j
    }
}

/// `s` without leading and trailing white space.
pub open spec fn trimmed(s: Seq<char>) -> Seq<char> {
    let start = skip_space_from(s, 0);
    s.subrange(start, trim_end_from(s, start, s.len() as int))
}

/// Strips leading and trailing white space.
pub fn trim(s: &Vec<char>) -> (r: Vec<char>)
    ensures
        r@ == trimmed(s@),
{
    let mut start: usize = 0;
    while start < s.len() && white_space(s[start])
        invariant
            start <= s@.len(),
            skip_space_from(s@, start as int) == skip_space_from(s@, 0),
        decreases s@.len() - start,
    {
        start = start + 1;
    }
    let mut end: usize = s.len();
    while end > start && white_space(s[end - 1])
        invariant
            start <= end <= s@.len(),
            start == skip_space_from(s@, 0),
            trim_end_from(s@, start as int, end as int) == trim_end_from(s@, start as int, s@.len() as int),
        decreases end - start,
    {
        end = end - 1;
    }
    copy_range(s, start, end)
}

/// The game mode `/gamemode` arguments name, once trimmed:
/// survival/0, creative/1, adventure/2, spectator/3; `None` otherwise (the
/// usage message is due then).
pub open spec fn gamemode_spec(args: Seq<char>) -> Option<u8> {
    let t = trimmed(args);
    if t == seq!['s', 'u', 'r', 'v', 'i', 'v', 'a', 'l'] || t == seq!['0'] {
        Some(0u8)
    } else if t == seq!['c', 'r', 'e', 'a', 't', 'i', 'v', 'e'] || t == seq!['1'] {
        Some(1u8)
    } else if t == seq!['a', 'd', 'v', 'e', 'n', 't', 'u', 'r', 'e'] || t == seq!['2'] {
        Some(2u8)
    } else if t == seq!['s', 'p', 'e', 'c', 't', 'a', 't', 'o', 'r'] || t == seq!['3'] {
        Some(3u8)
    } else {
        None
    }
}

/// Reads the game mode of `/gamemode` arguments.
pub fn parse_gamemode(args: &Vec<char>) -> (r: Option<u8>)
    ensures
        r == gamemode_spec(args@),
{
    let t = trim(args);
    let survival = vec!['s', 'u', 'r', 'v', 'i', 'v', 'a', 'l'];
    let creative = vec!['c', 'r', 'e', 'a', 't', 'i', 'v', 'e'];
    let adventure = vec!['a', 'd', 'v', 'e', 'n', 't', 'u', 'r', 'e'];
    let spectator = vec!['s', 'p', 'e', 'c', 't', 'a', 't', 'o', 'r'];
    assert(survival@ == seq!['s', 'u', 'r', 'v', 'i', 'v', 'a', 'l']);
    assert(creative@ == seq!['c', 'r', 'e', 'a', 't', 'i', 'v', 'e']);
    assert(adventure@ == seq!['a', 'd', 'v', 'e', 'n', 't', 'u', 'r', 'e']);
    assert(spectator@ == seq!['s', 'p', 'e', 'c', 't', 'a', 't', 'o', 'r']);
    let digit_0 = vec!['0'];
    let digit_1 = vec!['1'];
    let digit_2 = vec!['2'];
    let digit_3 = vec!['3'];
    assert(digit_0@ == seq!['0']);
    assert(digit_1@ == seq!['1']);
    assert(digit_2@ == seq!['2']);
    assert(digit_3@ == seq!['3']);
    let is_survival = chars_equal(&t, &survival) || chars_equal(&t, &digit_0);
    let is_creative = chars_equal(&t, &creative) || chars_equal(&t, &digit_1);
    let is_adventure = chars_equal(&t, &adventure) || chars_equal(&t, &digit_2);
    let is_spectator = chars_equal(&t, &spectator) || chars_equal(&t, &digit_3);
    if is_survival {
        Some(0)
    } else if is_creative {
        Some(1)
    } else if is_adventure {
        Some(2)
    } else if is_spectator {
        Some(3)
    } else {
        None
    }
}

/// Each game mode can be named by its word or by its digit, and both
/// select the same mode once surrounding white space is trimmed:
/// survival/0 select survival (0), creative/1 creative (1), adventure/2
/// adventure (2), spectator/3 spectator (3).
pub proof fn gamemode_word_and_digit_agree(word_args: Seq<char>, digit_args: Seq<char>, mode: u8)
    requires
        mode <= 3,
        trimmed(word_args) == (if mode == 0 {
            seq!['s', 'u', 'r', 'v', 'i', 'v', 'a', 'l']
        } else if mode == 1 {
            seq!['c', 'r', 'e', 'a', 't', 'i', 'v', 'e']
        } else if mode == 2 {
            seq!['a', 'd', 'v', 'e', 'n', 't', 'u', 'r', 'e']
        } else {
            seq!['s', 'p', 'e', 'c', 't', 'a', 't', 'o', 'r']
        }),
        trimmed(digit_args) == seq![('0' as u32 + mode as u32) as char],
    ensures
        gamemode_spec(word_args) == Some(mode),
        gamemode_spec(digit_args) == Some(mode),
        gamemode_spec(word_args) == gamemode_spec(digit_args),
{
    let w = trimmed(word_args);
    let d = trimmed(digit_args);
    if mode == 0 {
        assert(d =~= seq!['0']);
    } else if mode == 1 {
        assert(d =~= seq!['1']);
        assert(w != seq!['s', 'u', 'r', 'v', 'i', 'v', 'a', 'l']) by {
            assert(w[0] != seq!['s', 'u', 'r', 'v', 'i', 'v', 'a', 'l'][0]);
        }
        assert(w != seq!['0']);
        assert(d != seq!['s', 'u', 'r', 'v', 'i', 'v', 'a', 'l']);
        assert(d != seq!['0']) by {
            assert(d[0] != seq!['0'][0]);
        }
    } else if mode == 2 {
        assert(d =~= seq!['2']);
        assert(w != seq!['s', 'u', 'r', 'v', 'i', 'v', 'a', 'l']) by {
            assert(w.len() != 8);
        }
        assert(w != seq!['c', 'r', 'e', 'a', 't', 'i', 'v', 'e']);
        assert(w != seq!['0'] && w != seq!['1']);
        assert(d != seq!['0']) by {
            assert(d[0] != seq!['0'][0]);
        }
        assert(d != seq!['1']) by {
            assert(d[0] != seq!['1'][0]);
        }
        assert(d != seq!['s', 'u', 'r', 'v', 'i', 'v', 'a', 'l']);
        assert(d != seq!['c', 'r', 'e', 'a', 't', 'i', 'v', 'e']);
    } else {
        assert(d =~= seq!['3']);
        assert(w != seq!['s', 'u', 'r', 'v', 'i', 'v', 'a', 'l']) by {
            assert(w.len() != 8);
        }
        assert(w != seq!['c', 'r', 'e', 'a', 't', 'i', 'v', 'e']);
        assert(w != seq!['a', 'd', 'v', 'e', 'n', 't', 'u', 'r', 'e']) by {
            assert(w[0] != seq!['a', 'd', 'v', 'e', 'n', 't', 'u', 'r', 'e'][0]);
        }
        assert(w != seq!['0'] && w != seq!['1'] && w != seq!['2']);
        assert(d != seq!['0']) by {
            assert(d[0] != seq!['0'][0]);
        }
        assert(d != seq!['1']) by {
            assert(d[0] != seq!['1'][0]);
        }
        assert(d != seq!['2']) by {
            assert(d[0] != seq!['2'][0]);
        }
        assert(d != seq!['s', 'u', 'r', 'v', 'i', 'v', 'a', 'l']);
        assert(d != seq!['c', 'r', 'e', 'a', 't', 'i', 'v', 'e']);
        assert(d != seq!['a', 'd', 'v', 'e', 'n', 't', 'u', 'r', 'e']);
    }
}

/// The display name of game mode `mode`: anything past adventure reads
/// as spectator.
pub fn gamemode_name(mode: u8) -> (r: &'static str)
    ensures
        r@ == (if mode == 0 {
            "Survival"@
        } else if mode == 1 {
            "Creative"@
        } else if mode == 2 {
            "Adventure"@
        } else {
            "Spectator"@
        }),
{
    match mode {
        0 => "Survival",
        1 => "Creative",
        2 => "Adventure",
        _ => "Spectator",
    }
}

} // verus!
