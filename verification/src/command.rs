//! The interactive shell's command line: what a read line becomes, and which
//! command its first word names.

use vstd::prelude::*;

verus! {

/// Unicode `White_Space`, the set that separates words of a command line.
pub open spec fn whitespace(c: char) -> bool {
    let u = c as u32;
    ||| 0x9 <= u <= 0xD
    ||| u == 0x20
    ||| u == 0x85
    ||| u == 0xA0
    ||| u == 0x1680
    ||| 0x2000 <= u <= 0x200A
    ||| u == 0x2028
    ||| u == 0x2029
    ||| u == 0x202F
    ||| u == 0x205F
    ||| u == 0x3000
}

/// Whether `c` is Unicode white space.
pub fn is_whitespace(c: char) -> (r: bool)
    ensures
        r == whitespace(c),
{
    let u: u32 = c as u32;
    (0x9 <= u && u <= 0xD) || u == 0x20 || u == 0x85 || u == 0xA0 || u == 0x1680 || (0x2000 <= u
        && u <= 0x200A) || u == 0x2028 || u == 0x2029 || u == 0x202F || u == 0x205F || u == 0x3000
}

/// The first index at or after `i` that does not hold white space (or the length).
pub open spec fn skip_space(s: Seq<char>, i: int) -> int
    decreases s.len() - i,
{
    if 0 <= i < s.len() && whitespace(s[i]) {
        skip_space(s, i + 1)
    } else {
        i
    }
}

/// The first index at or after `i` that holds white space (or the length).
pub open spec fn skip_word(s: Seq<char>, i: int) -> int
    decreases s.len() - i,
{
    if 0 <= i < s.len() && !whitespace(s[i]) {
        skip_word(s, i + 1)
    } else {
        i
    }
}

/// Whether the line holds a word at all.
pub open spec fn has_word(s: Seq<char>) -> bool {
    skip_space(s, 0) < s.len()
}

/// The first white-space separated word of the line.
pub open spec fn first_word(s: Seq<char>) -> Seq<char> {
    let a = skip_space(s, 0);
    s.subrange(a, skip_word(s, a))
}

/// The index just after the last character before `j` that is not white
/// space (0 when there is none).
pub open spec fn back_space(s: Seq<char>, j: int) -> int
    decreases j,
{
    if 0 < j <= s.len() && whitespace(s[j - 1]) {
        back_space(s, j - 1)
    } else {
        j
    }
}

/// The line without its leading and trailing white space.
pub open spec fn trimmed(s: Seq<char>) -> Seq<char> {
    if has_word(s) {
        s.subrange(skip_space(s, 0), back_space(s, s.len() as int))
    } else {
        Seq::empty()
    }
}

/// Proves that a line with a word ends its last word after the first one starts.
proof fn lemma_back_space_bounds(s: Seq<char>, j: int)
    requires
        0 <= j <= s.len(),
        skip_space(s, 0) < j,
    ensures
        skip_space(s, 0) < back_space(s, j) <= j,
    decreases j,
{
    lemma_skip_space_stops(s, 0);
    if 0 < j && whitespace(s[j - 1]) {
        lemma_back_space_bounds(s, j - 1);
    }
}

/// `back_space` never moves forward.
proof fn lemma_back_space_at_most(s: Seq<char>, j: int)
    ensures
        back_space(s, j) <= j,
    decreases j,
{
    if 0 < j <= s.len() && whitespace(s[j - 1]) {
        lemma_back_space_at_most(s, j - 1);
    }
}

/// What `skip_space` finds: only white space before it, and no white space at it.
proof fn lemma_skip_space_stops(s: Seq<char>, i: int)
    requires
        0 <= i <= s.len(),
    ensures
        i <= skip_space(s, i) <= s.len(),
        skip_space(s, i) < s.len() ==> !whitespace(s[skip_space(s, i)]),
        forall|k: int| i <= k < skip_space(s, i) ==> whitespace(#[trigger] s[k]),
    decreases s.len() - i,
{
    if i < s.len() && whitespace(s[i]) {
        lemma_skip_space_stops(s, i + 1);
    }
}

/// `line` without its leading and trailing white space.
pub fn trim(line: &str) -> (r: String)
    ensures
        r@ == trimmed(line@),
{
    let v: Vec<char> = chars_of(line);
    let n: usize = v.len();
    let mut a: usize = 0;
    while a < n && is_whitespace(v[a])
        invariant
            n == v@.len(),
            v@ == line@,
            0 <= a <= n,
            skip_space(v@, a as int) == skip_space(v@, 0),
        decreases n - a,
    {
        a = a + 1;
    }
    if a == n {
        return String::new();
    }
    let mut b: usize = n;
    proof {
        lemma_back_space_bounds(v@, n as int);
    }
    while b > a && is_whitespace(v[b - 1])
        invariant
            n == v@.len(),
            v@ == line@,
            a < n,
            a == skip_space(v@, 0),
            a <= b <= n,
            back_space(v@, b as int) == back_space(v@, n as int),
            a < back_space(v@, n as int),
        decreases b,
    {
        b = b - 1;
    }
    proof {
        lemma_back_space_at_most(v@, b as int);
    }
    String::from_str(line.substring_char(a, b))
}

/// What `skip_word` finds: no white space before it, and white space at it
/// unless it is the end of the line.
proof fn lemma_skip_word_stops(s: Seq<char>, i: int)
    requires
        0 <= i <= s.len(),
    ensures
        i <= skip_word(s, i) <= s.len(),
        skip_word(s, i) < s.len() ==> whitespace(s[skip_word(s, i)]),
        forall|k: int| i <= k < skip_word(s, i) ==> !whitespace(#[trigger] s[k]),
    decreases s.len() - i,
{
    if i < s.len() && !whitespace(s[i]) {
        lemma_skip_word_stops(s, i + 1);
    }
}

/// What `back_space` finds: only white space from it up to `j`, and no white
/// space just before it.
proof fn lemma_back_space_stops(s: Seq<char>, j: int)
    requires
        0 <= j <= s.len(),
    ensures
        0 <= back_space(s, j) <= j,
        back_space(s, j) > 0 ==> !whitespace(s[back_space(s, j) - 1]),
        forall|k: int| back_space(s, j) <= k < j ==> whitespace(#[trigger] s[k]),
    decreases j,
{
    if 0 < j && whitespace(s[j - 1]) {
        lemma_back_space_stops(s, j - 1);
    }
}

/// The first word of a line holds no white space; only white space comes
/// before it in the line, and it runs up to the end of the line or to a white
/// space character.  It is empty exactly when the line holds nothing but
/// white space, which is when the line has no word.
pub proof fn first_word_is_a_word(s: Seq<char>)
    ensures
        forall|k: int| 0 <= k < first_word(s).len() ==> !whitespace(#[trigger] first_word(s)[k]),
        exists|a: int|
            #![trigger s.subrange(a, a + first_word(s).len())]
            {
                &&& 0 <= a
                &&& a + first_word(s).len() <= s.len()
                &&& forall|i: int| 0 <= i < a ==> whitespace(#[trigger] s[i])
                &&& s.subrange(a, a + first_word(s).len()) == first_word(s)
                &&& (a + first_word(s).len() == s.len() || whitespace(s[a + first_word(s).len()]))
            },
        has_word(s) <==> first_word(s).len() > 0,
        has_word(s) <==> exists|i: int| 0 <= i < s.len() && !whitespace(#[trigger] s[i]),
{
    lemma_skip_space_stops(s, 0);
    let a = skip_space(s, 0);
    lemma_skip_word_stops(s, a);
    let b = skip_word(s, a);
    let w = first_word(s);
    assert(w.len() == b - a);
    assert forall|k: int| 0 <= k < w.len() implies !whitespace(#[trigger] w[k]) by {
        assert(w[k] == s[a + k]);
    }
    assert(s.subrange(a, a + w.len()) == w);
    if has_word(s) {
        assert(!whitespace(s[a]));
        assert(w[0] == s[a]);
    } else {
        assert forall|i: int| 0 <= i < s.len() implies whitespace(#[trigger] s[i]) by {}
    }
}

/// Trimming takes away white space only, and all of it at both ends: the
/// trimmed line neither begins nor ends with white space, and the line is the
/// trimmed line with nothing but white space before and after it.
pub proof fn trimmed_strips_only_white_space(s: Seq<char>)
    ensures
        trimmed(s).len() > 0 ==> !whitespace(trimmed(s)[0]) && !whitespace(trimmed(s).last()),
        exists|a: int|
            #![trigger s.subrange(a, a + trimmed(s).len())]
            {
                &&& 0 <= a
                &&& a + trimmed(s).len() <= s.len()
                &&& forall|i: int| 0 <= i < a ==> whitespace(#[trigger] s[i])
                &&& s.subrange(a, a + trimmed(s).len()) == trimmed(s)
                &&& forall|i: int| a + trimmed(s).len() <= i < s.len() ==> whitespace(#[trigger] s[i])
            },
{
    lemma_skip_space_stops(s, 0);
    let a = skip_space(s, 0);
    let t = trimmed(s);
    if has_word(s) {
        lemma_back_space_bounds(s, s.len() as int);
        lemma_back_space_stops(s, s.len() as int);
        let b = back_space(s, s.len() as int);
        assert(t.len() == b - a);
        assert(t[0] == s[a]);
        assert(t.last() == s[b - 1]);
        assert(s.subrange(a, a + t.len()) == t);
    } else {
        assert(t.len() == 0);
        assert(s.subrange(a, a + t.len()) =~= t);
    }
}

/// What a read of the shell gives when it ends in error.
#[derive(Debug, Clone, Copy, PartialEq, Eq)]
pub enum LineError {
    /// Nothing was read: the input is at its end.
    EndOfFile,
    /// The line holds no character at all.
    NoCharacter,
}

/// The command a line stands for, when `bytes_read` bytes were read into `line`.
pub open spec fn line_result(bytes_read: usize, line: Seq<char>) -> Result<Seq<char>, LineError> {
    if bytes_read == 0 {
        Err(LineError::EndOfFile)
    } else if line.len() == 0 {
        Err(LineError::NoCharacter)
    } else if line.last() == '\n' {
        Ok(line.drop_last())
    } else {
        Ok(line)
    }
}

/// A read of nothing is the end of the input; a read of something into an
/// empty line has no character; any other read gives a command, which is the
/// line less its last character when that is a newline, and the whole line
/// otherwise.
pub proof fn line_result_drops_one_newline(bytes_read: usize, line: Seq<char>)
    ensures
        bytes_read == 0 ==> line_result(bytes_read, line) == Err::<Seq<char>, LineError>(
            LineError::EndOfFile,
        ),
        bytes_read > 0 && line.len() == 0 ==> line_result(bytes_read, line) == Err::<
            Seq<char>,
            LineError,
        >(LineError::NoCharacter),
        bytes_read > 0 && line.len() > 0 ==> line_result(bytes_read, line) is Ok,
        line_result(bytes_read, line) matches Ok(c) ==> (line == c.push('\n') || (line == c
            && line.last() != '\n')),
{
    if bytes_read > 0 && line.len() > 0 && line.last() == '\n' {
        assert(line == line.drop_last().push('\n'));
    }
}

/// Turns what one read of standard input gave into a command string: a read
/// of nothing is the end of the input, and one final newline is dropped.
pub fn command_from_line(bytes_read: usize, line: &str) -> (r: Result<String, LineError>)
    ensures
        match (r, line_result(bytes_read, line@)) {
            (Ok(c), Ok(expected)) => c@ == expected,
            (Err(e), Err(expected)) => e == expected,
            _ => false,
        },
{
    if bytes_read == 0 {
        return Err(LineError::EndOfFile);
    }
    let n: usize = line.unicode_len();
    if n == 0 {
        return Err(LineError::NoCharacter);
    }
    let last: char = line.get_char(n - 1);
    if last == '\n' {
        let kept: &str = line.substring_char(0, n - 1);
        Ok(String::from_str(kept))
    } else {
        Ok(String::from_str(line))
    }
}

/// A command of the interactive shell.
#[derive(Debug, PartialEq, Eq)]
pub enum Command {
    /// `quit`, `exit` or `q`: leave the shell.
    Quit,
    /// `help` or `h`: print the list of commands.
    Help,
    /// `train`: run the gradient descent.
    Train,
    /// `show`: plot the data and the current line.
    Show,
    /// `regression` or `error`: plot the error history.
    Regression,
    /// `save`: store the current gradient.
    Save,
    /// `gradient`: print the current gradient.
    Gradient,
    /// `clear`: reset the gradient.
    Clear,
    /// `price`: estimate the price of a car.
    Price,
    /// Any other word, kept as it was typed.
    Unknown(String),
}

/// The words that ask to leave the shell.
pub open spec fn quit_word(w: Seq<char>) -> bool {
    w == seq!['q', 'u', 'i', 't'] || w == seq!['e', 'x', 'i', 't'] || w == seq!['q']
}

/// The words that ask to print the help.
pub open spec fn help_word(w: Seq<char>) -> bool {
    w == seq!['h', 'e', 'l', 'p'] || w == seq!['h']
}

/// The words that ask to plot the error history.
pub open spec fn regression_word(w: Seq<char>) -> bool {
    w == seq!['r', 'e', 'g', 'r', 'e', 's', 's', 'i', 'o', 'n'] || w == seq!['e', 'r', 'r', 'o', 'r']
}

/// The word that asks to train the model.
pub open spec fn train_word(w: Seq<char>) -> bool {
    w == seq!['t', 'r', 'a', 'i', 'n']
}

/// The word that asks to plot the data.
pub open spec fn show_word(w: Seq<char>) -> bool {
    w == seq!['s', 'h', 'o', 'w']
}

/// The word that asks to save the gradient.
pub open spec fn save_word(w: Seq<char>) -> bool {
    w == seq!['s', 'a', 'v', 'e']
}

/// The word that asks to print the gradient.
pub open spec fn gradient_word(w: Seq<char>) -> bool {
    w == seq!['g', 'r', 'a', 'd', 'i', 'e', 'n', 't']
}

/// The word that asks to reset the gradient.
pub open spec fn clear_word(w: Seq<char>) -> bool {
    w == seq!['c', 'l', 'e', 'a', 'r']
}

/// The word that asks to estimate a price.
pub open spec fn price_word(w: Seq<char>) -> bool {
    w == seq!['p', 'r', 'i', 'c', 'e']
}

/// Whether `w` is one of the shell's command words.
pub open spec fn known_word(w: Seq<char>) -> bool {
    quit_word(w) || help_word(w) || train_word(w) || show_word(w) || regression_word(w)
        || save_word(w) || gradient_word(w) || clear_word(w) || price_word(w)
}

/// Whether the word `w` names the command `c`.
pub open spec fn names(w: Seq<char>, c: Command) -> bool {
    match c {
        Command::Quit => quit_word(w),
        Command::Help => help_word(w),
        Command::Train => train_word(w),
        Command::Show => show_word(w),
        Command::Regression => regression_word(w),
        Command::Save => save_word(w),
        Command::Gradient => gradient_word(w),
        Command::Clear => clear_word(w),
        Command::Price => price_word(w),
        Command::Unknown(u) => u@ == w && !known_word(w),
    }
}

/// Whether `v[from..to]` spells `lit`.
fn spells(v: &Vec<char>, from: usize, to: usize, lit: &[char]) -> (r: bool)
    requires
        from <= to <= v@.len(),
    ensures
        r == (v@.subrange(from as int, to as int) == lit@),
{
    if to - from != lit.len() {
        return false;
    }
    let mut i: usize = 0;
    while i < lit.len()
        invariant
            from <= to <= v@.len(),
            to - from == lit@.len(),
            0 <= i <= lit@.len(),
            forall|k: int| 0 <= k < i ==> v@[from + k] == lit@[k],
        decreases lit@.len() - i,
    {
        if v[from + i] != lit[i] {
            assert(v@.subrange(from as int, to as int)[i as int] != lit@[i as int]);
            return false;
        }
        i = i + 1;
    }
    assert(v@.subrange(from as int, to as int) =~= lit@);
    true
}

/// The characters of `s`, one by one.
fn chars_of(s: &str) -> (v: Vec<char>)
    ensures
        v@ == s@,
{
    let n: usize = s.unicode_len();
    let mut v: Vec<char> = Vec::new();
    for i in 0..n
        invariant
            n == s@.len(),
            v@ == s@.take(i as int),
    {
        v.push(s.get_char(i));
        assert(s@.take(i + 1) =~= s@.take(i as int).push(s@[i as int]));
    }
    assert(s@.take(n as int) =~= s@);
    v
}

/// The command that the first word of `line` names; `None` when the line is
/// blank.  Words are separated by Unicode white space.
pub fn parse_command(line: &str) -> (r: Option<Command>)
    ensures
        r.is_none() <==> !has_word(line@),
        r matches Some(c) ==> names(first_word(line@), c),
{
    let v: Vec<char> = chars_of(line);
    let n: usize = v.len();
    let mut a: usize = 0;
    while a < n && is_whitespace(v[a])
        invariant
            n == v@.len(),
            0 <= a <= n,
            skip_space(v@, a as int) == skip_space(v@, 0),
        decreases n - a,
    {
        a = a + 1;
    }
    if a == n {
        return None;
    }
    let mut b: usize = a;
    while b < n && !is_whitespace(v[b])
        invariant
            n == v@.len(),
            a <= b <= n,
            skip_word(v@, b as int) == skip_word(v@, a as int),
        decreases n - b,
    {
        b = b + 1;
    }
    let ghost w = v@.subrange(a as int, b as int);
    assert(w == first_word(line@));
    let q: &[char] = &['q'];
    let h: &[char] = &['h'];
    assert(q@ == seq!['q'] && h@ == seq!['h']);
    let quit: bool = spells(&v, a, b, &['q', 'u', 'i', 't']) || spells(&v, a, b, &['e', 'x', 'i', 't'])
        || spells(&v, a, b, q);
    let help: bool = spells(&v, a, b, &['h', 'e', 'l', 'p']) || spells(&v, a, b, h);
    let train: bool = spells(&v, a, b, &['t', 'r', 'a', 'i', 'n']);
    let show: bool = spells(&v, a, b, &['s', 'h', 'o', 'w']);
    let regression: bool = spells(&v, a, b, &['r', 'e', 'g', 'r', 'e', 's', 's', 'i', 'o', 'n'])
        || spells(&v, a, b, &['e', 'r', 'r', 'o', 'r']);
    let save: bool = spells(&v, a, b, &['s', 'a', 'v', 'e']);
    let gradient: bool = spells(&v, a, b, &['g', 'r', 'a', 'd', 'i', 'e', 'n', 't']);
    let clear: bool = spells(&v, a, b, &['c', 'l', 'e', 'a', 'r']);
    let price: bool = spells(&v, a, b, &['p', 'r', 'i', 'c', 'e']);
    let c = if quit {
        Command::Quit
    } else if help {
        Command::Help
    } else if train {
        Command::Train
    } else if show {
        Command::Show
    } else if regression {
        Command::Regression
    } else if save {
        Command::Save
    } else if gradient {
        Command::Gradient
    } else if clear {
        Command::Clear
    } else if price {
        Command::Price
    } else {
        Command::Unknown(String::from_str(line.substring_char(a, b)))
    };
    Some(c)
}

} // verus!
