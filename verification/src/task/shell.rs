//! The command language of the interactive shell: how typed characters
//! become a command line, and what a command line asks for.

use crate::task::keyboard::Key;
use vstd::prelude::*;

verus! {

/// Whether `c` is white space, as Unicode defines it.
pub open spec fn is_whitespace(c: char) -> bool {
    let code = c as u32;
    ||| 0x09 <= code <= 0x0d
    ||| code == 0x20
    ||| code == 0x85
    ||| code == 0xa0
    ||| code == 0x1680
    ||| 0x2000 <= code <= 0x200a
    ||| code == 0x2028
    ||| code == 0x2029
    ||| code == 0x202f
    ||| code == 0x205f
    ||| code == 0x3000
}

/// The words of `text`: its maximal runs of characters that are not white
/// space, in order. Read from the left, a character that is white space ends
/// the word before it, if any; any other character goes on with the word that
/// the character before it belongs to, or starts a new word.
pub open spec fn words(text: Seq<char>) -> Seq<Seq<char>>
    decreases text.len(),
{
    if text.len() == 0 {
        Seq::empty()
    } else {
        let before = words(text.drop_last());
        if is_whitespace(text.last()) {
            before
        } else if text.len() >= 2 && !is_whitespace(text[text.len() - 2]) {
            before.drop_last().push(before.last().push(text.last()))
        } else {
            before.push(seq![text.last()])
        }
    }
}

/// A text that ends in a character that is not white space has a last word,
/// and that word is not empty.
pub proof fn lemma_open_word(text: Seq<char>)
    requires
        text.len() > 0,
        !is_whitespace(text.last()),
    ensures
        words(text).len() > 0,
        words(text).last().len() > 0,
    decreases text.len(),
{
    if text.len() >= 2 && !is_whitespace(text[text.len() - 2]) {
        lemma_open_word(text.drop_last());
    }
}

/// Every word has at least one character, and none that is white space.
pub proof fn lemma_words_are_solid(text: Seq<char>, k: int)
    requires
        0 <= k < words(text).len(),
    ensures
        words(text)[k].len() > 0,
        forall|i: int| 0 <= i < words(text)[k].len() ==> !is_whitespace(#[trigger] words(text)[k][i]),
    decreases text.len(),
{
    if text.len() > 0 {
        let before = words(text.drop_last());
        if is_whitespace(text.last()) {
            lemma_words_are_solid(text.drop_last(), k);
        } else if text.len() >= 2 && !is_whitespace(text[text.len() - 2]) {
            lemma_open_word(text.drop_last());
            if k < before.len() - 1 {
                lemma_words_are_solid(text.drop_last(), k);
            } else {
                lemma_words_are_solid(text.drop_last(), before.len() - 1);
            }
        } else {
            if k < before.len() {
                lemma_words_are_solid(text.drop_last(), k);
            }
        }
    }
}

fn char_is_whitespace(c: char) -> (blank: bool)
    ensures
        blank == is_whitespace(c),
{
    let code: u32 = c as u32;
    (0x09 <= code && code <= 0x0d) || code == 0x20 || code == 0x85 || code == 0xa0 || code
        == 0x1680 || (0x2000 <= code && code <= 0x200a) || code == 0x2028 || code == 0x2029
        || code == 0x202f || code == 0x205f || code == 0x3000
}

/// The texts of a list of character vectors.
pub open spec fn texts(list: Seq<Vec<char>>) -> Seq<Seq<char>> {
    list.map_values(|word: Vec<char>| word@)
}

/// Splits a line into its words.
pub fn split_words(line: &Vec<char>) -> (found: Vec<Vec<char>>)
    ensures
        texts(found@) == words(line@),
{
    let mut found: Vec<Vec<char>> = Vec::new();
    let mut in_word = false;
    let mut i: usize = 0;
    proof {
        assert(line@.take(0) =~= Seq::<char>::empty());
        assert(texts(found@) =~= words(line@.take(0)));
    }
    while i < line.len()
        invariant
            i <= line.len(),
            texts(found@) == words(line@.take(i as int)),
            in_word == (i > 0 && !is_whitespace(line[i - 1])),
        decreases line.len() - i,
    {
        let c = line[i];
        let ghost so_far = line@.take(i as int);
        let ghost next = line@.take(i + 1);
        proof {
            assert(next.drop_last() =~= so_far);
            assert(next.last() == c);
            if i > 0 {
                assert(next[next.len() - 2] == line[i - 1]);
                if in_word {
                    assert(so_far.last() == line[i - 1]);
                    lemma_open_word(so_far);
                }
            }
        }
        if char_is_whitespace(c) {
            in_word = false;
        } else if in_word {
            let ghost before = texts(found@);
            let mut word = found.pop().unwrap();
            word.push(c);
            found.push(word);
            proof {
                assert(texts(found@) =~= before.drop_last().push(before.last().push(c)));
            }
        } else {
            let ghost before = texts(found@);
            let mut word: Vec<char> = Vec::new();
            word.push(c);
            found.push(word);
            in_word = true;
            proof {
                assert(texts(found@) =~= before.push(seq![c]));
            }
        }
        i += 1;
    }
    proof {
        assert(line@.take(line.len() as int) =~= line@);
    }
    found
}

/// Whether `c` is a decimal digit.
pub open spec fn is_digit(c: char) -> bool {
    '0' <= c <= '9'
}

/// The number that a row of decimal digits stands for.
pub open spec fn decimal_value(digits: Seq<char>) -> nat
    decreases digits.len(),
{
    if digits.len() == 0 {
        0
    } else {
        decimal_value(digits.drop_last()) * 10 + (digits.last() as u32 - '0' as u32) as nat
    }
}

/// The digits of a word that is read as a number: the word itself, or what
/// follows its plus sign if it starts with one.
pub open spec fn digits_of(word: Seq<char>) -> Seq<char> {
    if word.len() > 0 && word[0] == '+' {
        word.drop_first()
    } else {
        word
    }
}

/// The number that `word` stands for, if it is a number no larger than `max`:
/// one or more decimal digits, with or without a plus sign in front.
pub open spec fn parse_unsigned(word: Seq<char>, max: nat) -> Option<nat> {
    let digits = digits_of(word);
    if digits.len() > 0 && (forall|i: int| 0 <= i < digits.len() ==> is_digit(#[trigger] digits[i]))
        && decimal_value(digits) <= max {
        Some(decimal_value(digits))
    } else {
        None
    }
}

/// Reading more digits never makes a number smaller.
proof fn lemma_decimal_value_grows(digits: Seq<char>, shorter: int)
    requires
        0 <= shorter <= digits.len(),
        forall|i: int| 0 <= i < digits.len() ==> is_digit(#[trigger] digits[i]),
    ensures
        decimal_value(digits.take(shorter)) <= decimal_value(digits),
    decreases digits.len() - shorter,
{
    if shorter < digits.len() {
        let longer = digits.take(shorter + 1);
        assert(longer.drop_last() =~= digits.take(shorter));
        assert(is_digit(digits[shorter]));
        lemma_decimal_value_grows(digits, shorter + 1);
    } else {
        assert(digits.take(shorter) =~= digits);
    }
}

/// Reads `word` as a decimal number no larger than `max`.
pub fn parse_decimal(word: &Vec<char>, max: u64) -> (number: Option<u64>)
    ensures
        number == match parse_unsigned(word@, max as nat) {
            Some(value) => Some(value as u64),
            None => None,
        },
{
    let start: usize = if word.len() > 0 && word[0] == '+' {
        1
    } else {
        0
    };
    let ghost digits = digits_of(word@);
    proof {
        assert(digits =~= word@.skip(start as int));
    }
    if start == word.len() {
        return None;
    }
    let mut value: u64 = 0;
    let mut i: usize = start;
    proof {
        assert(digits.take(0) =~= Seq::<char>::empty());
    }
    while i < word.len()
        invariant
            start <= i <= word.len(),
            digits == digits_of(word@),
            digits == word@.skip(start as int),
            forall|k: int| 0 <= k < i - start ==> is_digit(#[trigger] digits[k]),
            value == decimal_value(digits.take(i - start)),
            value <= max,
        decreases word.len() - i,
    {
        let c = word[i];
        let ghost read = digits.take(i - start + 1);
        proof {
            assert(digits[i - start] == c);
            assert(read.drop_last() =~= digits.take(i - start));
            assert(read.last() == c);
        }
        if !('0' <= c && c <= '9') {
            proof {
                assert(!is_digit(digits[i - start]));
            }
            return None;
        }
        let digit: u64 = (c as u32 - '0' as u32) as u64;
        if digit > max || value > (max - digit) / 10 {
            proof {
                assert(decimal_value(read) > max) by (nonlinear_arith)
                    requires
                        decimal_value(read) == value * 10 + digit,
                        digit > max || value > (max - digit) / 10,
                        0 <= value,
                ;
                if forall|k: int| 0 <= k < digits.len() ==> is_digit(#[trigger] digits[k]) {
                    lemma_decimal_value_grows(digits, i - start + 1);
                }
            }
            return None;
        }
        assert(value * 10 + digit <= max) by (nonlinear_arith)
            requires
                value <= (max - digit) / 10,
                digit <= max,
        ;
        value = value * 10 + digit;
        i += 1;
    }
    proof {
        assert(digits.take(word.len() - start) =~= digits);
    }
    Some(value)
}

/// The given words, with one space between each two.
pub open spec fn join_words(list: Seq<Seq<char>>) -> Seq<char>
    decreases list.len(),
{
    if list.len() == 0 {
        Seq::empty()
    } else if list.len() == 1 {
        list[0]
    } else {
        join_words(list.drop_last()) + seq![' '] + list.last()
    }
}

/// Joins the words of `list` from index `from` on, with one space between
/// each two.
pub fn join_from(list: &Vec<Vec<char>>, from: usize) -> (joined: Vec<char>)
    requires
        from <= list.len(),
    ensures
        joined@ == join_words(texts(list@).skip(from as int)),
{
    let mut joined: Vec<char> = Vec::new();
    let mut i: usize = from;
    let ghost rest = texts(list@).skip(from as int);
    proof {
        assert(rest.take(0) =~= Seq::<Seq<char>>::empty());
    }
    while i < list.len()
        invariant
            from <= i <= list.len(),
            rest == texts(list@).skip(from as int),
            joined@ == join_words(rest.take(i - from)),
        decreases list.len() - i,
    {
        let ghost before = joined@;
        let ghost taken = rest.take(i - from + 1);
        proof {
            assert(taken.drop_last() =~= rest.take(i - from));
            assert(taken.last() == list[i as int]@);
        }
        if i > from {
            joined.push(' ');
        }
        let word = &list[i];
        let mut k: usize = 0;
        let ghost spaced = joined@;
        while k < word.len()
            invariant
                k <= word.len(),
                joined@ == spaced + word@.take(k as int),
            decreases word.len() - k,
        {
            joined.push(word[k]);
            k += 1;
            proof {
                assert(word@.take(k as int) =~= word@.take(k - 1).push(word[k - 1]));
            }
        }
        proof {
            assert(word@.take(word.len() as int) =~= word@);
            if i > from {
                assert(joined@ =~= before + seq![' '] + word@);
            } else {
                assert(joined@ =~= word@);
            }
        }
        i += 1;
    }
    proof {
        assert(rest.take(list.len() - from) =~= rest);
    }
    joined
}

/// Whether `word` spells `keyword`.
pub fn word_is(word: &Vec<char>, keyword: &str) -> (same: bool)
    ensures
        same == (word@ == keyword@),
{
    if word.len() != keyword.unicode_len() {
        return false;
    }
    let mut i: usize = 0;
    while i < word.len()
        invariant
            i <= word.len(),
            word.len() == keyword@.len(),
            forall|k: int| 0 <= k < i ==> word[k] == keyword@[k],
        decreases word.len() - i,
    {
        if word[i] != keyword.get_char(i) {
            return false;
        }
        i += 1;
    }
    proof {
        assert(word@ =~= keyword@);
    }
    true
}

/// What a command line asks for.
#[derive(Debug, PartialEq, Eq)]
pub enum Command {
    /// A line without words asks for nothing.
    Nothing,
    Help,
    /// `echo`: print the words that follow, one space between each two.
    Echo(Vec<char>),
    Clear,
    Shutdown,
    Heap,
    AllocTest,
    Snake,
    Panic,
    /// `ps`: list the tasks.
    Ps,
    /// `kill` with the identifier of the task to remove.
    Kill(u64),
    /// `kill` without a word after it.
    KillUsage,
    /// `kill` with a word after it that is no task identifier.
    KillInvalid(Vec<char>),
    /// `sleep` with the number of timer ticks to sleep for.
    Sleep(usize),
    /// `sleep` without a word after it.
    SleepUsage,
    /// `sleep` for zero ticks, which is refused.
    SleepZero,
    /// `sleep` with a word after it that is no tick count.
    SleepInvalid(Vec<char>),
    /// A line whose first word is no command.
    Unknown(Vec<char>),
}

/// What a command line asks for, as a mathematical value.
pub enum CommandView {
    Nothing,
    Help,
    Echo(Seq<char>),
    Clear,
    Shutdown,
    Heap,
    AllocTest,
    Snake,
    Panic,
    Ps,
    Kill(u64),
    KillUsage,
    KillInvalid(Seq<char>),
    Sleep(usize),
    SleepUsage,
    SleepZero,
    SleepInvalid(Seq<char>),
    Unknown(Seq<char>),
}

impl View for Command {
    type V = CommandView;

    open spec fn view(&self) -> CommandView {
        match self {
            Command::Nothing => CommandView::Nothing,
            Command::Help => CommandView::Help,
            Command::Echo(text) => CommandView::Echo(text@),
            Command::Clear => CommandView::Clear,
            Command::Shutdown => CommandView::Shutdown,
            Command::Heap => CommandView::Heap,
            Command::AllocTest => CommandView::AllocTest,
            Command::Snake => CommandView::Snake,
            Command::Panic => CommandView::Panic,
            Command::Ps => CommandView::Ps,
            Command::Kill(id) => CommandView::Kill(*id),
            Command::KillUsage => CommandView::KillUsage,
            Command::KillInvalid(word) => CommandView::KillInvalid(word@),
            Command::Sleep(ticks) => CommandView::Sleep(*ticks),
            Command::SleepUsage => CommandView::SleepUsage,
            Command::SleepZero => CommandView::SleepZero,
            Command::SleepInvalid(word) => CommandView::SleepInvalid(word@),
            Command::Unknown(word) => CommandView::Unknown(word@),
        }
    }
}

/// What `kill` asks for, given the words after it.
pub open spec fn kill_command(arguments: Seq<Seq<char>>) -> CommandView {
    if arguments.len() == 0 {
        CommandView::KillUsage
    } else {
        match parse_unsigned(arguments[0], u64::MAX as nat) {
            Some(id) => CommandView::Kill(id as u64),
            None => CommandView::KillInvalid(arguments[0]),
        }
    }
}

/// What `sleep` asks for, given the words after it.
pub open spec fn sleep_command(arguments: Seq<Seq<char>>) -> CommandView {
    if arguments.len() == 0 {
        CommandView::SleepUsage
    } else {
        match parse_unsigned(arguments[0], usize::MAX as nat) {
            Some(ticks) => if ticks > 0 {
                CommandView::Sleep(ticks as usize)
            } else {
                CommandView::SleepZero
            },
            None => CommandView::SleepInvalid(arguments[0]),
        }
    }
}

/// What the command line `line` asks for: the first word names the command,
/// the words after it are its arguments.
pub open spec fn command_of(line: Seq<char>) -> CommandView {
    let list = words(line);
    if list.len() == 0 {
        CommandView::Nothing
    } else if list[0] == "help"@ {
        CommandView::Help
    } else if list[0] == "echo"@ {
        CommandView::Echo(join_words(list.skip(1)))
    } else if list[0] == "clear"@ {
        CommandView::Clear
    } else if list[0] == "shutdown"@ {
        CommandView::Shutdown
    } else if list[0] == "heap"@ {
        CommandView::Heap
    } else if list[0] == "alloc_test"@ {
        CommandView::AllocTest
    } else if list[0] == "snake"@ {
        CommandView::Snake
    } else if list[0] == "panic"@ {
        CommandView::Panic
    } else if list[0] == "ps"@ {
        CommandView::Ps
    } else if list[0] == "kill"@ {
        kill_command(list.skip(1))
    } else if list[0] == "sleep"@ {
        sleep_command(list.skip(1))
    } else {
        CommandView::Unknown(list[0])
    }
}

/// A copy of `word`.
fn copy_word(word: &Vec<char>) -> (copy: Vec<char>)
    ensures
        copy@ == word@,
{
    let mut copy: Vec<char> = Vec::new();
    let mut i: usize = 0;
    while i < word.len()
        invariant
            i <= word.len(),
            copy@ == word@.take(i as int),
        decreases word.len() - i,
    {
        copy.push(word[i]);
        i += 1;
        proof {
            assert(word@.take(i as int) =~= word@.take(i - 1).push(word[i - 1]));
        }
    }
    proof {
        assert(word@.take(word.len() as int) =~= word@);
    }
    copy
}

/// Reads a command line.
pub fn parse_command(line: &Vec<char>) -> (command: Command)
    ensures
        command@ == command_of(line@),
{
    let list = split_words(line);
    if list.len() == 0 {
        return Command::Nothing;
    }
    let name = &list[0];
    proof {
        assert(texts(list@)[0] == name@);
        if list.len() > 1 {
            assert(texts(list@).skip(1)[0] == list[1]@);
        }
    }
    if word_is(name, "help") {
        Command::Help
    } else if word_is(name, "echo") {
        Command::Echo(join_from(&list, 1))
    } else if word_is(name, "clear") {
        Command::Clear
    } else if word_is(name, "shutdown") {
        Command::Shutdown
    } else if word_is(name, "heap") {
        Command::Heap
    } else if word_is(name, "alloc_test") {
        Command::AllocTest
    } else if word_is(name, "snake") {
        Command::Snake
    } else if word_is(name, "panic") {
        Command::Panic
    } else if word_is(name, "ps") {
        Command::Ps
    } else if word_is(name, "kill") {
        if list.len() < 2 {
            Command::KillUsage
        } else {
            match parse_decimal(&list[1], u64::MAX) {
                Some(id) => Command::Kill(id),
                None => Command::KillInvalid(copy_word(&list[1])),
            }
        }
    } else if word_is(name, "sleep") {
        if list.len() < 2 {
            Command::SleepUsage
        } else {
            match parse_decimal(&list[1], usize::MAX as u64) {
                Some(ticks) => if ticks > 0 {
                    Command::Sleep(ticks as usize)
                } else {
                    Command::SleepZero
                },
                None => Command::SleepInvalid(copy_word(&list[1])),
            }
        }
    } else {
        Command::Unknown(copy_word(name))
    }
}

/// Whether `c` is an ASCII control character.
pub open spec fn is_ascii_control(c: char) -> bool {
    (c as u32) < 0x20 || c as u32 == 0x7f
}

/// What the shell does in answer to a typed character.
#[derive(Debug, PartialEq, Eq)]
pub enum Edit {
    /// Nothing to do.
    Ignored,
    /// The character was added to the line: show it.
    Typed(char),
    /// The last character of the line was taken back: wipe it off the screen.
    Erased,
    /// The line was entered: go to a new line and carry it out.
    Entered(Vec<char>),
}

/// What the shell does in answer to a typed character, as a mathematical
/// value.
pub enum EditView {
    Ignored,
    Typed(char),
    Erased,
    Entered(Seq<char>),
}

impl View for Edit {
    type V = EditView;

    open spec fn view(&self) -> EditView {
        match self {
            Edit::Ignored => EditView::Ignored,
            Edit::Typed(c) => EditView::Typed(*c),
            Edit::Erased => EditView::Erased,
            Edit::Entered(line) => EditView::Entered(line@),
        }
    }
}

/// What typing `c` makes of the line `line`: a backspace takes the last
/// character back, if there is one; a line feed enters the line and starts
/// an empty one; any other character joins the line unless it is a control
/// character.
pub open spec fn edit_of(line: Seq<char>, c: char) -> (Seq<char>, EditView) {
    if c == '\u{8}' {
        if line.len() > 0 {
            (line.drop_last(), EditView::Erased)
        } else {
            (line, EditView::Ignored)
        }
    } else if c == '\n' {
        (Seq::empty(), EditView::Entered(line))
    } else if is_ascii_control(c) {
        (line, EditView::Ignored)
    } else {
        (line.push(c), EditView::Typed(c))
    }
}

/// What a decoded key makes of the line `line`: a key that types a character
/// edits the line with it, any other key and no key at all change nothing.
pub open spec fn edit_of_key(line: Seq<char>, key: Option<Key>) -> (Seq<char>, EditView) {
    match key {
        Some(Key::Unicode(c)) => edit_of(line, c),
        _ => (line, EditView::Ignored),
    }
}

/// The line that is being typed at the shell's prompt.
pub struct LineEditor {
    line: Vec<char>,
}

impl View for LineEditor {
    type V = Seq<char>;

    closed spec fn view(&self) -> Seq<char> {
        self.line@
    }
}

impl LineEditor {
    /// An editor with an empty line.
    pub fn new() -> (editor: LineEditor)
        ensures
            editor@ == Seq::<char>::empty(),
    {
        LineEditor { line: Vec::new() }
    }

    /// Takes what the keyboard decoder made of a scancode.
    pub fn type_key(&mut self, key: Option<Key>) -> (edit: Edit)
        ensures
            (final(self)@, edit@) == edit_of_key(old(self)@, key),
    {
        match key {
            Some(Key::Unicode(c)) => self.type_char(c),
            _ => Edit::Ignored,
        }
    }

    /// Takes a typed character.
    pub fn type_char(&mut self, c: char) -> (edit: Edit)
        ensures
            (final(self)@, edit@) == edit_of(old(self)@, c),
    {
        if c == '\u{8}' {
            if self.line.len() > 0 {
                self.line.pop();
                Edit::Erased
            } else {
                Edit::Ignored
            }
        } else if c == '\n' {
            let mut entered: Vec<char> = Vec::new();
            std::mem::swap(&mut self.line, &mut entered);
            Edit::Entered(entered)
        } else if (c as u32) < 0x20 || c as u32 == 0x7f {
            Edit::Ignored
        } else {
            self.line.push(c);
            Edit::Typed(c)
        }
    }
}

} // verus!
