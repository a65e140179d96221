//! The bot's configuration: the entries of a `.env` file, and the configuration
//! that the four required variables make up.

use vstd::prelude::*;

use crate::text::{
    chars_of, find_char, first_index, is_white, lemma_first_index, lemma_trimmed_idempotent,
    lemma_trimmed_range, pair_texts, string_of_range, trim_range, trimmed,
};

verus! {

/// Credentials and endpoints of the exchange account.
pub struct Config {
    pub api_key: String,
    pub api_secret: String,
    pub backpack_rest_url: String,
    pub backpack_ws_url: String,
}

/// The variable that holds the API key.
pub const API_KEY_VAR: &'static str = "API_KEY";

/// The variable that holds the Base64 secret key.
pub const API_SECRET_VAR: &'static str = "API_SECRET";

/// The variable that holds the REST endpoint.
pub const BACKPACK_REST_URL_VAR: &'static str = "BACKPACK_REST_URL";

/// The variable that holds the websocket endpoint.
pub const BACKPACK_WS_URL_VAR: &'static str = "BACKPACK_WS_URL";

/// What `str::to_uppercase` gives back for a text (Unicode upper case mapping).
pub uninterp spec fn uppercase_of(text: Seq<char>) -> Seq<char>;

/// Calls `str::to_uppercase`. Claimed: the result is `uppercase_of` the text.
#[verifier::external_body]
fn uppercase(text: &str) -> (r: String)
    ensures
        r@ == uppercase_of(text@),
{
    text.to_uppercase()
}

/// The parts of `s` between line feeds; a line feed at the very end starts no
/// further part, and an empty text has no parts.
pub open spec fn newline_segments(s: Seq<char>) -> Seq<Seq<char>>
    decreases s.len(),
{
    if s.len() == 0 {
        Seq::empty()
    } else {
        match first_index(s, '\n') {
            Some(i) => if 0 <= i < s.len() {
                seq![s.take(i)] + newline_segments(s.skip(i + 1))
            } else {
                seq![s]
            },
            None => seq![s],
        }
    }
}

/// The entry that one line of a `.env` file sets: for a line with `=`, the
/// trimmed text before the first `=` in upper case, and the trimmed text after it.
/// The upper-casing and trimming also make the result the same for a line that
/// ends in a carriage return.
pub open spec fn env_line_entry(line: Seq<char>) -> Option<(Seq<char>, Seq<char>)> {
    match first_index(line, '=') {
        Some(i) => Some((uppercase_of(trimmed(line.take(i))), trimmed(line.skip(i + 1)))),
        None => None,
    }
}

/// The entries that a sequence of lines sets, in order.
pub open spec fn env_entries(lines: Seq<Seq<char>>) -> Seq<(Seq<char>, Seq<char>)>
    decreases lines.len(),
{
    if lines.len() == 0 {
        Seq::empty()
    } else {
        match env_line_entry(lines[0]) {
            Some(e) => seq![e] + env_entries(lines.drop_first()),
            None => env_entries(lines.drop_first()),
        }
    }
}

/// The lines of two files, read one after the other, set the entries of the
/// first and then those of the second.
pub proof fn lemma_env_entries_concat(a: Seq<Seq<char>>, b: Seq<Seq<char>>)
    ensures
        env_entries(a + b) == env_entries(a) + env_entries(b),
    decreases a.len(),
{
    if a.len() == 0 {
        assert(a + b =~= b);
    } else {
        lemma_env_entries_concat(a.drop_first(), b);
        assert((a + b).drop_first() =~= a.drop_first() + b);
        assert((a + b)[0] == a[0]);
        assert(env_entries(a + b) =~= env_entries(a) + env_entries(b));
    }
}

/// A line sets an entry exactly when it holds `=`, and the name of that entry
/// is upper case and the value has no whitespace at either end.
pub proof fn lemma_env_line_entry(line: Seq<char>)
    ensures
        env_line_entry(line) is Some <==> line.contains('='),
        env_line_entry(line) matches Some(e) ==> e.1 == trimmed(e.1),
{
    lemma_first_index_exists(line, '=');
    if let Some(e) = env_line_entry(line) {
        lemma_trimmed_idempotent(line.skip(first_index(line, '=')->0 + 1));
    }
}

/// `first_index` finds a character exactly when the text holds it, at an index
/// that holds it.
pub proof fn lemma_first_index_exists(s: Seq<char>, c: char)
    ensures
        first_index(s, c) is Some <==> s.contains(c),
        first_index(s, c) matches Some(i) ==> 0 <= i < s.len() && s[i] == c,
    decreases s.len(),
{
    if s.len() > 0 {
        lemma_first_index_exists(s.drop_first(), c);
        if s[0] != c && s.contains(c) {
            let k = choose|k: int| 0 <= k < s.len() && s[k] == c;
            assert(s.drop_first()[k - 1] == c);
        }
        if s.drop_first().contains(c) {
            let k = choose|k: int| 0 <= k < s.drop_first().len() && s.drop_first()[k] == c;
            assert(s[k + 1] == c);
        }
    }
}

/// A line whose first `=` is at `i` sets an entry. Its value is the whole text
/// after that `=`, less only the whitespace at its two ends (`value_range` gives
/// where it lies in that text); its name is the upper case of the text before
/// the `=`, less only the whitespace at its ends (`name_range`).
pub proof fn lemma_env_line_value(line: Seq<char>, i: int) -> (r: ((int, int), (int, int)))
    requires
        0 <= i < line.len(),
        line[i] == '=',
        forall|k: int| 0 <= k < i ==> line[k] != '=',
    ensures
        ({
            let name_text = line.take(i);
            let value_text = line.skip(i + 1);
            let (name_range, value_range) = r;
            &&& env_line_entry(line) == Some(
                (
                    uppercase_of(name_text.subrange(name_range.0, name_range.1)),
                    value_text.subrange(value_range.0, value_range.1),
                ),
            )
            &&& 0 <= name_range.0 <= name_range.1 <= name_text.len()
            &&& forall|m: int| 0 <= m < name_range.0 ==> is_white(#[trigger] name_text[m])
            &&& forall|m: int|
                name_range.1 <= m < name_text.len() ==> is_white(#[trigger] name_text[m])
            &&& name_range.0 < name_range.1 ==> !is_white(name_text[name_range.0]) && !is_white(
                name_text[name_range.1 - 1],
            )
            &&& 0 <= value_range.0 <= value_range.1 <= value_text.len()
            &&& forall|m: int| 0 <= m < value_range.0 ==> is_white(#[trigger] value_text[m])
            &&& forall|m: int|
                value_range.1 <= m < value_text.len() ==> is_white(#[trigger] value_text[m])
            &&& value_range.0 < value_range.1 ==> !is_white(value_text[value_range.0])
                && !is_white(value_text[value_range.1 - 1])
        }),
{
    lemma_first_index(line, '=', i);
    let nr = lemma_trimmed_range(line.take(i));
    let vr = lemma_trimmed_range(line.skip(i + 1));
    (nr, vr)
}

/// A text of a single line (no line feed) sets the entry of that line, if any.
pub proof fn lemma_env_single_line(line: Seq<char>)
    requires
        line.len() > 0,
        !line.contains('\n'),
    ensures
        env_file_entries(line) == (match env_line_entry(line) {
            Some(e) => seq![e],
            None => Seq::<(Seq<char>, Seq<char>)>::empty(),
        }),
{
    lemma_first_index_exists(line, '\n');
    assert(newline_segments(line) =~= seq![line]);
    assert(seq![line].drop_first() =~= Seq::<Seq<char>>::empty());
    assert(seq![line][0] == line);
    assert(env_entries(Seq::<Seq<char>>::empty()) =~= Seq::<(Seq<char>, Seq<char>)>::empty());
    if let Some(e) = env_line_entry(line) {
        assert(env_file_entries(line) =~= seq![e] + Seq::<(Seq<char>, Seq<char>)>::empty());
        assert(seq![e] + Seq::<(Seq<char>, Seq<char>)>::empty() =~= seq![e]);
    }
}

/// The entries of the text of a `.env` file.
pub open spec fn env_file_entries(content: Seq<char>) -> Seq<(Seq<char>, Seq<char>)> {
    env_entries(newline_segments(content))
}

/// Where `a` holds `c`, so does `a + b`, first at the same place.
pub proof fn lemma_first_index_concat(a: Seq<char>, b: Seq<char>, c: char)
    requires
        first_index(a, c) is Some,
    ensures
        first_index(a + b, c) == first_index(a, c),
    decreases a.len(),
{
    if a[0] != c {
        assert((a + b).drop_first() =~= a.drop_first() + b);
        lemma_first_index_concat(a.drop_first(), b, c);
    }
}

/// The lines of a text that is empty or ends with a line feed, followed by
/// another text, are the lines of the first and then those of the second.
pub proof fn lemma_newline_segments_concat(a: Seq<char>, b: Seq<char>)
    requires
        a.len() == 0 || a.last() == '\n',
    ensures
        newline_segments(a + b) == newline_segments(a) + newline_segments(b),
    decreases a.len(),
{
    if a.len() == 0 {
        assert(a + b =~= b);
        assert(newline_segments(a) + newline_segments(b) =~= newline_segments(b));
    } else {
        assert(a.contains('\n')) by {
            assert(a[a.len() - 1] == '\n');
        }
        lemma_first_index_exists(a, '\n');
        let i = first_index(a, '\n')->0;
        lemma_first_index_concat(a, b, '\n');
        let rest = a.skip(i + 1);
        assert((a + b).take(i) =~= a.take(i));
        assert((a + b).skip(i + 1) =~= rest + b);
        if rest.len() > 0 {
            assert(rest.last() == a.last());
        }
        lemma_newline_segments_concat(rest, b);
        assert(newline_segments(a + b) =~= newline_segments(a) + newline_segments(b));
    }
}

/// A `.env` text that is empty or ends with a line feed, followed by another,
/// sets the entries of the first and then those of the second.
pub proof fn lemma_env_file_entries_concat(a: Seq<char>, b: Seq<char>)
    requires
        a.len() == 0 || a.last() == '\n',
    ensures
        env_file_entries(a + b) == env_file_entries(a) + env_file_entries(b),
{
    lemma_newline_segments_concat(a, b);
    lemma_env_entries_concat(newline_segments(a), newline_segments(b));
}

/// The `(NAME, value)` entries that the text of a `.env` file sets, in the order
/// of its lines.
pub fn parse_env_content(content: &str) -> (r: Vec<(String, String)>)
    ensures
        pair_texts(r@) == env_file_entries(content@),
{
    let v = chars_of(content);
    let n = v.len();
    let mut pos: usize = 0;
    let mut out: Vec<(String, String)> = Vec::new();
    assert(v@.subrange(0, n as int) =~= v@);
    while pos < n
        invariant
            pos <= n,
            n == v@.len(),
            v@ == content@,
            pair_texts(out@) + env_entries(newline_segments(v@.subrange(pos as int, n as int)))
                == env_file_entries(content@),
        decreases n - pos,
    {
        let ghost sub = v@.subrange(pos as int, n as int);
        let end = find_char(&v, '\n', pos, n);
        let ghost line = v@.subrange(pos as int, end as int);
        let next = if end < n {
            end + 1
        } else {
            n
        };
        let ghost rest = v@.subrange(next as int, n as int);
        assert(newline_segments(sub) =~= seq![line] + newline_segments(rest)) by {
            if end < n {
                assert(sub.take(end - pos) =~= line);
                assert(sub.skip(end - pos + 1) =~= rest);
            } else {
                assert(sub =~= line);
                assert(rest =~= Seq::<char>::empty());
            }
        }
        assert((seq![line] + newline_segments(rest))[0] == line);
        assert((seq![line] + newline_segments(rest)).drop_first() =~= newline_segments(rest));
        let eq = find_char(&v, '=', pos, end);
        let ghost old_out = out@;
        if eq < end {
            let (ka, kb) = trim_range(&v, pos, eq);
            let (va, vb) = trim_range(&v, eq + 1, end);
            let key_text = string_of_range(&v, ka, kb);
            let key = uppercase(key_text.as_str());
            let value = string_of_range(&v, va, vb);
            assert(line.take(eq - pos) =~= v@.subrange(pos as int, eq as int));
            assert(line.skip(eq - pos + 1) =~= v@.subrange(eq + 1, end as int));
            out.push((key, value));
            assert(pair_texts(out@) =~= pair_texts(old_out) + seq![env_line_entry(line)->0]);
        }
        assert(pair_texts(out@) + env_entries(newline_segments(rest)) =~= pair_texts(old_out)
            + env_entries(newline_segments(sub)));
        pos = next;
    }
    assert(v@.subrange(n as int, n as int) =~= Seq::<char>::empty());
    assert(pair_texts(out@) =~= env_file_entries(content@));
    out
}

/// The configuration that the values of the four variables make up, or, for the
/// first of `API_KEY`, `API_SECRET`, `BACKPACK_REST_URL`, `BACKPACK_WS_URL` that has
/// no value, the message that it is not set.
pub open spec fn config_outcome(
    api_key: Option<Seq<char>>,
    api_secret: Option<Seq<char>>,
    backpack_rest_url: Option<Seq<char>>,
    backpack_ws_url: Option<Seq<char>>,
) -> Result<(Seq<char>, Seq<char>, Seq<char>, Seq<char>), Seq<char>> {
    if api_key is None {
        Err("API_KEY environment variable not set"@)
    } else if api_secret is None {
        Err("API_SECRET environment variable not set"@)
    } else if backpack_rest_url is None {
        Err("BACKPACK_REST_URL environment variable not set"@)
    } else if backpack_ws_url is None {
        Err("BACKPACK_WS_URL environment variable not set"@)
    } else {
        Ok((api_key->0, api_secret->0, backpack_rest_url->0, backpack_ws_url->0))
    }
}

/// The text of an optional string.
pub open spec fn opt_text(s: Option<String>) -> Option<Seq<char>> {
    match s {
        Some(t) => Some(t@),
        None => None,
    }
}

/// The configuration is made exactly when all four variables have a value.
pub proof fn lemma_config_outcome_ok(
    api_key: Option<Seq<char>>,
    api_secret: Option<Seq<char>>,
    backpack_rest_url: Option<Seq<char>>,
    backpack_ws_url: Option<Seq<char>>,
)
    ensures
        config_outcome(api_key, api_secret, backpack_rest_url, backpack_ws_url) is Ok <==> (
        api_key is Some && api_secret is Some && backpack_rest_url is Some
            && backpack_ws_url is Some),
{
}

/// Which variable is reported missing, and what the configuration holds: the
/// first unset variable, in the order `API_KEY`, `API_SECRET`,
/// `BACKPACK_REST_URL`, `BACKPACK_WS_URL`, is named in the error; with all four
/// set, the configuration holds their values, each in its own place.
pub proof fn lemma_config_outcome_values(
    api_key: Option<Seq<char>>,
    api_secret: Option<Seq<char>>,
    backpack_rest_url: Option<Seq<char>>,
    backpack_ws_url: Option<Seq<char>>,
)
    ensures
        ({
            let o = config_outcome(api_key, api_secret, backpack_rest_url, backpack_ws_url);
            &&& api_key is None ==> o == Err::<(Seq<char>, Seq<char>, Seq<char>, Seq<char>), Seq<
                char,
            >>("API_KEY environment variable not set"@)
            &&& api_key is Some && api_secret is None ==> o == Err::<
                (Seq<char>, Seq<char>, Seq<char>, Seq<char>),
                Seq<char>,
            >("API_SECRET environment variable not set"@)
            &&& api_key is Some && api_secret is Some && backpack_rest_url is None ==> o == Err::<
                (Seq<char>, Seq<char>, Seq<char>, Seq<char>),
                Seq<char>,
            >("BACKPACK_REST_URL environment variable not set"@)
            &&& api_key is Some && api_secret is Some && backpack_rest_url is Some
                && backpack_ws_url is None ==> o == Err::<
                (Seq<char>, Seq<char>, Seq<char>, Seq<char>),
                Seq<char>,
            >("BACKPACK_WS_URL environment variable not set"@)
            &&& api_key is Some && api_secret is Some && backpack_rest_url is Some
                && backpack_ws_url is Some ==> o == Ok::<
                (Seq<char>, Seq<char>, Seq<char>, Seq<char>),
                Seq<char>,
            >((api_key->0, api_secret->0, backpack_rest_url->0, backpack_ws_url->0))
        }),
{
}

impl Config {
    /// The configuration from the values that the four variables have, `None`
    /// standing for a variable that is not set.
    pub fn from_lookups(
        api_key: Option<String>,
        api_secret: Option<String>,
        backpack_rest_url: Option<String>,
        backpack_ws_url: Option<String>,
    ) -> (r: Result<Config, String>)
        ensures
            ({
                let o = config_outcome(
                    opt_text(api_key),
                    opt_text(api_secret),
                    opt_text(backpack_rest_url),
                    opt_text(backpack_ws_url),
                );
                match r {
                    Ok(c) => o == Ok::<(Seq<char>, Seq<char>, Seq<char>, Seq<char>), Seq<char>>(
                        (c.api_key@, c.api_secret@, c.backpack_rest_url@, c.backpack_ws_url@),
                    ),
                    Err(e) => o == Err::<(Seq<char>, Seq<char>, Seq<char>, Seq<char>), Seq<char>>(
                        e@,
                    ),
                }
            }),
    {
        let api_key = match api_key {
            Some(v) => v,
            None => {
                return Err(String::from_str("API_KEY environment variable not set"));
            },
        };
        let api_secret = match api_secret {
            Some(v) => v,
            None => {
                return Err(String::from_str("API_SECRET environment variable not set"));
            },
        };
        let backpack_rest_url = match backpack_rest_url {
            Some(v) => v,
            None => {
                return Err(String::from_str("BACKPACK_REST_URL environment variable not set"));
            },
        };
        let backpack_ws_url = match backpack_ws_url {
            Some(v) => v,
            None => {
                return Err(String::from_str("BACKPACK_WS_URL environment variable not set"));
            },
        };
        Ok(Config { api_key, api_secret, backpack_rest_url, backpack_ws_url })
    }
}

} // verus!
