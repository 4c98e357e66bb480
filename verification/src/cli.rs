//! The decisions of the internetz wallet prompt: the prompt text, what a
//! typed line asks for, yes/no answers, and where wallet files live.

use vstd::prelude::*;

verus! {

/// A character with the Unicode `White_Space` property (what
/// `char::is_whitespace` tests).
pub open spec fn is_white_space(c: char) -> bool {
    let v = c as u32;
    ||| 9 <= v <= 13
    ||| v == 32
    ||| v == 0x85
    ||| v == 0xa0
    ||| v == 0x1680
    ||| 0x2000 <= v <= 0x200a
    ||| v == 0x2028
    ||| v == 0x2029
    ||| v == 0x202f
    ||| v == 0x205f
    ||| v == 0x3000
}

/// `s` without its leading white space.
pub open spec fn trim_start_ws(s: Seq<char>) -> Seq<char>
    decreases s.len(),
{
    if s.len() > 0 && is_white_space(s[0]) {
        trim_start_ws(s.drop_first())
    } else {
        s
    }
}

/// `s` without its trailing white space.
pub open spec fn trim_end_ws(s: Seq<char>) -> Seq<char>
    decreases s.len(),
{
    if s.len() > 0 && is_white_space(s.last()) {
        trim_end_ws(s.drop_last())
    } else {
        s
    }
}

/// The characters of `s` before its first white space.
pub open spec fn word_prefix(s: Seq<char>) -> Seq<char>
    decreases s.len(),
{
    if s.len() == 0 || is_white_space(s[0]) {
        Seq::empty()
    } else {
        seq![s[0]] + word_prefix(s.drop_first())
    }
}

/// The first white-space separated word of a line (empty for a blank line).
pub open spec fn first_word(line: Seq<char>) -> Seq<char> {
    word_prefix(trim_start_ws(line))
}

/// `c` with an ASCII capital turned into its small letter.
pub open spec fn ascii_lower(c: char) -> char {
    if 65 <= c as u32 <= 90 {
        ((c as u32) + 32) as char
    } else {
        c
    }
}

/// `word` spells `target` (a lower-case word) in any ASCII case.
pub open spec fn spells(word: Seq<char>, target: Seq<char>) -> bool {
    &&& word.len() == target.len()
    &&& forall|i: int| 0 <= i < word.len() ==> ascii_lower(#[trigger] word[i]) == target[i]
}

/// What a line typed at the prompt asks for.
#[derive(PartialEq, Eq, Structural, Clone, Copy, Debug)]
pub enum Command {
    /// `quit` or `exit`.
    Quit,
    /// `help`.
    Help,
    /// `create`: make and save a new wallet.
    Create,
    /// `open`: load a wallet.
    Open,
    /// Any other word.
    Unknown,
    /// Nothing but white space.
    Blank,
}

/// The command that the first word of a line names, case aside.
///
/// The first word is compared after lower-casing.  Of the characters whose
/// lower case is ASCII, only the ASCII capitals and the Kelvin sign (which
/// lowers to `k`, a letter none of the command words holds) are not ASCII
/// letters already, and U+0130 lowers to two characters, so comparing in
/// ASCII case is the same test.
pub open spec fn spec_command(line: Seq<char>) -> Command {
    let word = first_word(line);
    if word.len() == 0 {
        Command::Blank
    } else if spells(word, seq!['q', 'u', 'i', 't']) || spells(word, seq!['e', 'x', 'i', 't']) {
        Command::Quit
    } else if spells(word, seq!['h', 'e', 'l', 'p']) {
        Command::Help
    } else if spells(word, seq!['c', 'r', 'e', 'a', 't', 'e']) {
        Command::Create
    } else if spells(word, seq!['o', 'p', 'e', 'n']) {
        Command::Open
    } else {
        Command::Unknown
    }
}

/// The answer to a yes/no question: `Some(true)` for `y`, `Some(false)`
/// for `n` (either case, white space around it aside), `None` for anything
/// else.  (Upper-casing maps each character to one or more characters, and
/// only `y`/`Y` and `n`/`N` map to `Y` and `N`.)
pub open spec fn spec_yes_no(answer: Seq<char>) -> Option<bool> {
    let t = trim_end_ws(trim_start_ws(answer));
    if t.len() == 1 && (t[0] == 'y' || t[0] == 'Y') {
        Some(true)
    } else if t.len() == 1 && (t[0] == 'n' || t[0] == 'N') {
        Some(false)
    } else {
        None
    }
}

/// Whether `c` has the Unicode `White_Space` property.
pub fn is_whitespace(c: char) -> (res: bool)
    ensures
        res == is_white_space(c),
{
    let v = c as u32;
    (9 <= v && v <= 13) || v == 32 || v == 0x85 || v == 0xa0 || v == 0x1680 || (0x2000 <= v && v
        <= 0x200a) || v == 0x2028 || v == 0x2029 || v == 0x202f || v == 0x205f || v == 0x3000
}

fn to_ascii_lower(c: char) -> (res: char)
    ensures
        res == ascii_lower(c),
{
    let v = c as u32;
    if 65 <= v && v <= 90 {
        let lowered = (v + 32) as u8;
        lowered as char
    } else {
        c
    }
}

proof fn lemma_trim_start_step(s: Seq<char>, i: int)
    requires
        0 <= i < s.len(),
        is_white_space(s[i]),
    ensures
        trim_start_ws(s.skip(i)) == trim_start_ws(s.skip(i + 1)),
{
    assert(s.skip(i).drop_first() =~= s.skip(i + 1));
}

proof fn lemma_word_step(s: Seq<char>, i: int, j: int)
    requires
        0 <= i <= j < s.len(),
        !is_white_space(s[j]),
        word_prefix(s.skip(i)) == s.subrange(i, j) + word_prefix(s.skip(j)),
    ensures
        word_prefix(s.skip(i)) == s.subrange(i, j + 1) + word_prefix(s.skip(j + 1)),
{
    assert(s.skip(j).drop_first() =~= s.skip(j + 1));
    assert(word_prefix(s.skip(j)) == seq![s[j]] + word_prefix(s.skip(j + 1)));
    assert(s.subrange(i, j) + (seq![s[j]] + word_prefix(s.skip(j + 1))) =~= s.subrange(i, j + 1)
        + word_prefix(s.skip(j + 1)));
}

/// Lower-cases (in ASCII) the first word of `line`.
fn first_word_lowered(line: &str) -> (res: Vec<char>)
    ensures
        res@.len() == first_word(line@).len(),
        forall|k: int| 0 <= k < res@.len() ==> res@[k] == ascii_lower(#[trigger] first_word(line@)[k]),
{
    let n = line.unicode_len();
    let ghost s = line@;
    let mut i: usize = 0;
    proof {
        assert(s.skip(0) =~= s);
    }
    while i < n && is_whitespace(line.get_char(i))
        invariant
            n == s.len(),
            s == line@,
            i <= n,
            trim_start_ws(s) == trim_start_ws(s.skip(i as int)),
        decreases n - i,
    {
        proof {
            lemma_trim_start_step(s, i as int);
        }
        i = i + 1;
    }
    proof {
        if i < n {
            assert(s.skip(i as int)[0] == s[i as int]);
        }
        assert(trim_start_ws(s) == s.skip(i as int));
    }
    let mut j: usize = i;
    let mut word: Vec<char> = Vec::new();
    proof {
        assert(s.subrange(i as int, i as int) + word_prefix(s.skip(i as int)) =~= word_prefix(
            s.skip(i as int),
        ));
    }
    while j < n && !is_whitespace(line.get_char(j))
        invariant
            n == s.len(),
            s == line@,
            i <= j <= n,
            trim_start_ws(s) == s.skip(i as int),
            word_prefix(s.skip(i as int)) == s.subrange(i as int, j as int) + word_prefix(
                s.skip(j as int),
            ),
            word@.len() == j - i,
            forall|k: int| 0 <= k < j - i ==> word@[k] == ascii_lower(#[trigger] s[i + k]),
        decreases n - j,
    {
        let c = line.get_char(j);
        word.push(to_ascii_lower(c));
        proof {
            lemma_word_step(s, i as int, j as int);
        }
        j = j + 1;
    }
    proof {
        if j < n {
            assert(s.skip(j as int)[0] == s[j as int]);
        }
        assert(word_prefix(s.skip(j as int)) =~= Seq::<char>::empty());
        assert(first_word(s) =~= s.subrange(i as int, j as int));
        assert forall|k: int| 0 <= k < word@.len() implies word@[k] == ascii_lower(
            #[trigger] first_word(s)[k],
        ) by {
            assert(first_word(s)[k] == s[i + k]);
        }
    }
    word
}

/// Whether the lowered word equals the given word.
fn word_equals(word: &Vec<char>, target: &str) -> (res: bool)
    ensures
        res == (word@ == target@),
{
    let n = target.unicode_len();
    if word.len() != n {
        return false;
    }
    let mut k: usize = 0;
    while k < n
        invariant
            n == target@.len(),
            word@.len() == n,
            k <= n,
            forall|m: int| 0 <= m < k ==> word@[m] == target@[m],
        decreases n - k,
    {
        if word[k] != target.get_char(k) {
            return false;
        }
        k = k + 1;
    }
    assert(word@ =~= target@);
    true
}

proof fn lemma_spells(word: Seq<char>, lowered: Seq<char>, target: Seq<char>)
    requires
        lowered.len() == word.len(),
        forall|k: int| 0 <= k < lowered.len() ==> lowered[k] == ascii_lower(#[trigger] word[k]),
    ensures
        spells(word, target) == (lowered == target),
{
    if lowered == target {
        assert forall|i: int| 0 <= i < word.len() implies ascii_lower(#[trigger] word[i]) == target[i] by {
            assert(lowered[i] == ascii_lower(word[i]));
        }
    }
    if spells(word, target) {
        assert forall|i: int| 0 <= i < lowered.len() implies #[trigger] lowered[i] == target[i] by {
            assert(ascii_lower(word[i]) == target[i]);
        }
        assert(lowered =~= target);
    }
}

/// The command that a line typed at the prompt names: its first word,
/// compared in any case with `quit`/`exit`, `help`, `create` and `open`.
pub fn parse_command(line: &str) -> (res: Command)
    ensures
        res == spec_command(line@),
{
    let word = first_word_lowered(line);
    let ghost w = first_word(line@);
    proof {
        reveal_strlit("quit");
        reveal_strlit("exit");
        reveal_strlit("help");
        reveal_strlit("create");
        reveal_strlit("open");
        assert("quit"@ =~= seq!['q', 'u', 'i', 't']);
        assert("exit"@ =~= seq!['e', 'x', 'i', 't']);
        assert("help"@ =~= seq!['h', 'e', 'l', 'p']);
        assert("create"@ =~= seq!['c', 'r', 'e', 'a', 't', 'e']);
        assert("open"@ =~= seq!['o', 'p', 'e', 'n']);
        lemma_spells(w, word@, seq!['q', 'u', 'i', 't']);
        lemma_spells(w, word@, seq!['e', 'x', 'i', 't']);
        lemma_spells(w, word@, seq!['h', 'e', 'l', 'p']);
        lemma_spells(w, word@, seq!['c', 'r', 'e', 'a', 't', 'e']);
        lemma_spells(w, word@, seq!['o', 'p', 'e', 'n']);
    }
    if word.len() == 0 {
        Command::Blank
    } else if word_equals(&word, "quit") || word_equals(&word, "exit") {
        Command::Quit
    } else if word_equals(&word, "help") {
        Command::Help
    } else if word_equals(&word, "create") {
        Command::Create
    } else if word_equals(&word, "open") {
        Command::Open
    } else {
        Command::Unknown
    }
}

proof fn lemma_trim_end_step(s: Seq<char>, i: int, j: int)
    requires
        0 <= i < j <= s.len(),
        is_white_space(s[j - 1]),
    ensures
        trim_end_ws(s.subrange(i, j)) == trim_end_ws(s.subrange(i, j - 1)),
{
    assert(s.subrange(i, j).drop_last() =~= s.subrange(i, j - 1));
}

/// Reads a yes/no answer: `y` or `n` in either case, with white space
/// around it; anything else asks again (`None`).
pub fn parse_yes_no(answer: &str) -> (res: Option<bool>)
    ensures
        res == spec_yes_no(answer@),
        forall|k: int|
            0 <= k < answer@.len() && (#[trigger] answer@[k] == 'y' || answer@[k] == 'Y') && (forall|m: int|
                0 <= m < answer@.len() && m != k ==> is_white_space(answer@[m])) ==> res == Some(true),
        forall|k: int|
            0 <= k < answer@.len() && (#[trigger] answer@[k] == 'n' || answer@[k] == 'N') && (forall|m: int|
                0 <= m < answer@.len() && m != k ==> is_white_space(answer@[m])) ==> res == Some(false),
        res matches Some(yes) ==> exists|k: int|
            0 <= k < answer@.len() && (if yes {
                #[trigger] answer@[k] == 'y' || answer@[k] == 'Y'
            } else {
                answer@[k] == 'n' || answer@[k] == 'N'
            }) && (forall|m: int| 0 <= m < answer@.len() && m != k ==> is_white_space(answer@[m])),
{
    let n = answer.unicode_len();
    let ghost s = answer@;
    let mut i: usize = 0;
    proof {
        assert(s.skip(0) =~= s);
    }
    while i < n && is_whitespace(answer.get_char(i))
        invariant
            n == s.len(),
            s == answer@,
            i <= n,
            trim_start_ws(s) == trim_start_ws(s.skip(i as int)),
            forall|m: int| 0 <= m < i ==> is_white_space(#[trigger] s[m]),
        decreases n - i,
    {
        proof {
            lemma_trim_start_step(s, i as int);
        }
        i = i + 1;
    }
    proof {
        if i < n {
            assert(s.skip(i as int)[0] == s[i as int]);
        }
        assert(trim_start_ws(s) == s.skip(i as int));
        assert(s.skip(i as int) =~= s.subrange(i as int, n as int));
    }
    assert(i < n ==> !is_white_space(s[i as int]));
    let mut j: usize = n;
    while j > i && is_whitespace(answer.get_char(j - 1))
        invariant
            n == s.len(),
            s == answer@,
            i <= j <= n,
            trim_end_ws(trim_start_ws(s)) == trim_end_ws(s.subrange(i as int, j as int)),
            forall|m: int| j <= m < n ==> is_white_space(#[trigger] s[m]),
        decreases j,
    {
        proof {
            lemma_trim_end_step(s, i as int, j as int);
        }
        j = j - 1;
    }
    proof {
        if j > i {
            assert(s.subrange(i as int, j as int).last() == s[j - 1]);
        }
        assert(trim_end_ws(trim_start_ws(s)) == s.subrange(i as int, j as int));
    }
    assert(j > i ==> !is_white_space(s[j - 1]));
    proof {
        assert forall|k: int|
            0 <= k < n && !is_white_space(#[trigger] s[k]) && (forall|m: int|
                0 <= m < n && m != k ==> is_white_space(s[m])) implies i == k && j == k + 1 by {
            if i < k {
                assert(is_white_space(s[i as int]));
            }
            if j > k + 1 {
                assert(is_white_space(s[j - 1]));
            }
            if j <= k {
                assert(is_white_space(s[k]));
            }
        }
    }
    if j - i == 1 {
        let c = answer.get_char(i);
        if c == 'y' || c == 'Y' {
            return Some(true);
        } else if c == 'n' || c == 'N' {
            return Some(false);
        }
    }
    None
}

/// The prompt text: `INTERNETZ (<wallet name>) >> `, or `No Wallet` in
/// place of the name when none is loaded.
pub fn repl_prompt(wallet_name: &Option<String>) -> (res: String)
    ensures
        res@ == "INTERNETZ ("@ + match wallet_name {
            Some(name) => name@,
            None => "No Wallet"@,
        } + ") >> "@,
{
    let prompt = "INTERNETZ (".to_owned();
    let prompt = match wallet_name {
        Some(name) => prompt.concat(name.as_str()),
        None => prompt.concat("No Wallet"),
    };
    prompt.concat(") >> ")
}

/// Where the wallet of that name is kept: `./.lulzcoin/<name>.lulz`.
pub fn wallet_file_path(wallet_name: &str) -> (res: String)
    ensures
        res@ == "./.lulzcoin/"@ + wallet_name@ + ".lulz"@,
{
    "./.lulzcoin/".to_owned().concat(wallet_name).concat(".lulz")
}

/// Where the nonce of a wallet file is kept: the file's path plus `.nonce`.
pub fn nonce_file_path(wallet_path: &str) -> (res: String)
    ensures
        res@ == wallet_path@ + ".nonce"@,
{
    wallet_path.to_owned().concat(".nonce")
}

} // verus!
