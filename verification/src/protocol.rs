use vstd::prelude::*;

use crate::text::{chars_of, text_of};

verus! {

broadcast use vstd::string::group_string_axioms;

/// A command of the text protocol that clients send, one per line.
#[derive(Debug, PartialEq, Eq)]
pub enum Command {
    Put { key: String, value: String },
    Get { key: String },
    Delete { key: String },
}

/// Whether `c` has the Unicode `White_Space` property, which `char::is_whitespace`
/// tests: the tab and line controls U+0009 to U+000D, the space, U+0085, U+00A0,
/// U+1680, U+2000 to U+200A, U+2028, U+2029, U+202F, U+205F and U+3000.
pub open spec fn white_space(c: char) -> bool {
    let n = c as int;
    ||| 0x09 <= n <= 0x0D
    ||| n == 0x20
    ||| n == 0x85
    ||| n == 0xA0
    ||| n == 0x1680
    ||| 0x2000 <= n <= 0x200A
    ||| n == 0x2028
    ||| n == 0x2029
    ||| n == 0x202F
    ||| n == 0x205F
    ||| n == 0x3000
}

/// The upper-case form of `s`, as `str::to_uppercase` computes it.
pub uninterp spec fn uppercase(s: Seq<char>) -> Seq<char>;

/// Calls `char::is_whitespace`, whose result is whether `c` has the `White_Space`
/// property.
#[verifier::external_body]
fn is_white_space(c: char) -> (b: bool)
    ensures
        b == white_space(c),
{
    c.is_whitespace()
}

/// Calls `str::to_uppercase`; the result is the named upper-case form of `s`.
#[verifier::external_body]
fn to_uppercase(s: &str) -> (u: String)
    ensures
        u@ == uppercase(s@),
{
    s.to_uppercase()
}

/// Scanning `s` from the left: the words already closed by white space, and the
/// word still being read.
pub open spec fn scan_words(s: Seq<char>) -> (Seq<Seq<char>>, Seq<char>)
    decreases s.len(),
{
    if s.len() == 0 {
        (Seq::empty(), Seq::empty())
    } else {
        let (done, cur) = scan_words(s.drop_last());
        if white_space(s.last()) {
            (if cur.len() > 0 {
                done.push(cur)
            } else {
                done
            }, Seq::empty())
        } else {
            (done, cur.push(s.last()))
        }
    }
}

/// The maximal runs of non-white-space characters of `s`, in order.
pub open spec fn words(s: Seq<char>) -> Seq<Seq<char>> {
    let (done, cur) = scan_words(s);
    if cur.len() > 0 {
        done.push(cur)
    } else {
        done
    }
}

/// The views of a list of words.
pub open spec fn word_views(ws: Seq<Vec<char>>) -> Seq<Seq<char>> {
    ws.map_values(|w: Vec<char>| w@)
}

/// `s` split at white space into its words.
pub fn split_words(s: &Vec<char>) -> (ws: Vec<Vec<char>>)
    ensures
        word_views(ws@) == words(s@),
{
    let mut done: Vec<Vec<char>> = Vec::new();
    let mut cur: Vec<char> = Vec::new();
    let mut i: usize = 0;
    while i < s.len()
        invariant
            i <= s@.len(),
            (word_views(done@), cur@) == scan_words(s@.take(i as int)),
        decreases s@.len() - i,
    {
        let c = s[i];
        assert(s@.take(i + 1).drop_last() =~= s@.take(i as int));
        assert(s@.take(i + 1).last() == c);
        if is_white_space(c) {
            if cur.len() > 0 {
                let ghost before = done@;
                let word = cur;
                cur = Vec::new();
                done.push(word);
                assert(word_views(done@) =~= word_views(before).push(word@));
            }
            assert(cur@ =~= Seq::<char>::empty());
        } else {
            cur.push(c);
        }
        i = i + 1;
    }
    assert(s@.take(s@.len() as int) =~= s@);
    if cur.len() > 0 {
        let ghost before = done@;
        let ghost last = cur@;
        done.push(cur);
        assert(word_views(done@) =~= word_views(before).push(last));
    }
    done
}

/// The message for a line that holds no word.
pub open spec fn empty_command_message() -> Seq<char> {
    "Empty command"@
}

/// The message for a line that is not a command of the protocol.
pub open spec fn invalid_command_message() -> Seq<char> {
    "Invalid command. Use: SET <key> <value>, GET <key>, or DELETE <key>"@
}

/// Whether two strings hold the same characters.
fn text_eq(a: &String, b: &str) -> (r: bool)
    ensures
        r == (a@ == b@),
{
    let other: String = b.to_owned();
    *a == other
}

/// `r` is what a line whose words are `w`, the first taken in upper case as `head`,
/// reads as: `SET <key> <value>`, `GET <key>` or `DELETE <key>`, each with exactly that
/// number of words; anything else is an invalid command.
pub open spec fn reads_as(head: Seq<char>, w: Seq<Seq<char>>, r: Result<Command, String>) -> bool {
    if head == "SET"@ && w.len() == 3 {
        r matches Ok(Command::Put { key, value }) && key@ == w[1] && value@ == w[2]
    } else if head == "GET"@ && w.len() == 2 {
        r matches Ok(Command::Get { key }) && key@ == w[1]
    } else if head == "DELETE"@ && w.len() == 2 {
        r matches Ok(Command::Delete { key }) && key@ == w[1]
    } else {
        r matches Err(e) && e@ == invalid_command_message()
    }
}

/// The command that the words of a line name, given the first word in upper case.
pub fn command_from_words(head: &str, words: &Vec<Vec<char>>) -> (r: Result<Command, String>)
    ensures
        reads_as(head@, word_views(words@), r),
{
    let head: String = head.to_owned();
    if text_eq(&head, "SET") && words.len() == 3 {
        Ok(Command::Put { key: text_of(&words[1]), value: text_of(&words[2]) })
    } else if text_eq(&head, "GET") && words.len() == 2 {
        Ok(Command::Get { key: text_of(&words[1]) })
    } else if text_eq(&head, "DELETE") && words.len() == 2 {
        Ok(Command::Delete { key: text_of(&words[1]) })
    } else {
        Err("Invalid command. Use: SET <key> <value>, GET <key>, or DELETE <key>".to_owned())
    }
}

/// Reads a command line. The line is split into words at white space; the first word,
/// taken in upper case, names the command as `command_from_words` reads it. A line
/// without words is an empty command.
pub fn parse(line: &str) -> (r: Result<Command, String>)
    ensures
        words(line@).len() == 0 ==> (r matches Err(e) && e@ == empty_command_message()),
        words(line@).len() > 0 ==> reads_as(uppercase(words(line@)[0]), words(line@), r),
{
    let chars = chars_of(line);
    let parts = split_words(&chars);
    proof {
        assert(word_views(parts@).len() == parts@.len());
    }
    if parts.len() == 0 {
        return Err("Empty command".to_owned());
    }
    let first = text_of(&parts[0]);
    let head = to_uppercase(first.as_str());
    command_from_words(head.as_str(), &parts)
}
} // verus!
