//! The command interpreter: parses the Command-mode buffer — strip the
//! leading `':'` prefix, split on whitespace, match the first word against
//! the verb table case-insensitively — and applies the verb to the engine.
//! Work that needs a collaborator (loading tracks, feeding the sink) is
//! handed back as a [`CommandAction`] for the caller to carry out.

use vstd::prelude::*;
use vstd::string::StrSliceExecFns;
use crate::app::{
    audio_file_paths, clamp_index, remove_indices, sort_desc_spec, App, Mode, PlayStyle,
};
use crate::utils::{is_ws, is_ws_exec};

verus! {

/// What a command needs a collaborator for: nothing, loading every listed
/// file, or advancing to the next track.
pub enum CommandAction {
    Nothing,
    LoadAll(Vec<String>),
    PlayNext,
}

/// `s` with every leading `':'` removed.
pub open spec fn strip_colons(s: Seq<char>) -> Seq<char>
    decreases s.len(),
{
    if s.len() > 0 && s[0] == ':' {
        strip_colons(s.drop_first())
    } else {
        s
    }
}

/// The index of the first whitespace character of `s`, or its length.
pub open spec fn first_ws(s: Seq<char>) -> int
    decreases s.len(),
{
    if s.len() == 0 {
        0
    } else if is_ws(s[0]) {
        0
    } else {
        1 + first_ws(s.drop_first())
    }
}

proof fn lemma_first_ws_bounds(s: Seq<char>)
    ensures
        0 <= first_ws(s) <= s.len(),
        forall|i: int| 0 <= i < first_ws(s) ==> !is_ws(s[i]),
        first_ws(s) < s.len() ==> is_ws(s[first_ws(s)]),
    decreases s.len(),
{
    if s.len() > 0 && !is_ws(s[0]) {
        lemma_first_ws_bounds(s.drop_first());
        let k = first_ws(s);
        assert forall|i: int| 0 <= i < k implies !is_ws(s[i]) by {
            if i > 0 {
                assert(!is_ws(s.drop_first()[i - 1]));
            }
        }
        if k < s.len() {
            assert(is_ws(s.drop_first()[k - 1]));
        }
    }
}

proof fn lemma_first_ws_at(s: Seq<char>, k: int)
    requires
        0 <= k <= s.len(),
        forall|i: int| 0 <= i < k ==> !is_ws(s[i]),
        k < s.len() ==> is_ws(s[k]),
    ensures
        first_ws(s) == k,
    decreases s.len(),
{
    if s.len() > 0 && !is_ws(s[0]) {
        lemma_first_ws_at(s.drop_first(), k - 1);
    }
}

/// The whitespace-separated words of `s`, in order.
pub open spec fn tokens_of(s: Seq<char>) -> Seq<Seq<char>>
    decreases s.len(),
    via tokens_of_dec
{
    if s.len() == 0 {
        Seq::empty()
    } else if is_ws(s[0]) {
        tokens_of(s.drop_first())
    } else {
        seq![s.take(first_ws(s))] + tokens_of(s.skip(first_ws(s)))
    }
}

#[via_fn]
proof fn tokens_of_dec(s: Seq<char>) {
    lemma_first_ws_bounds(s);
    if s.len() > 0 && !is_ws(s[0]) {
        lemma_first_ws_bounds(s.drop_first());
    }
}

/// The words of the command string: the buffer with its `':'` prefix
/// stripped, split on whitespace.
pub open spec fn cmd_tokens(s: Seq<char>) -> Seq<Seq<char>> {
    tokens_of(strip_colons(s))
}

/// Splits `s` into its whitespace-separated words.
fn tokenize(s: &str) -> (toks: Vec<String>)
    ensures
        toks@.map_values(|t: String| t@) == tokens_of(s@),
{
    let n = s.unicode_len();
    let mut toks: Vec<String> = Vec::new();
    proof {
        assert(s@.skip(0) =~= s@);
    }
    let mut i: usize = 0;
    while i < n
        invariant
            0 <= i <= n,
            n == s@.len(),
            tokens_of(s@) == toks@.map_values(|t: String| t@) + tokens_of(s@.skip(i as int)),
        decreases n - i,
    {
        let c = s.get_char(i);
        if is_ws_exec(c) {
            proof {
                assert(s@.skip(i as int)[0] == s@[i as int]);
                assert(s@.skip(i as int).drop_first() =~= s@.skip(i + 1));
            }
            i = i + 1;
        } else {
            let mut j: usize = i;
            while j < n && !is_ws_exec(s.get_char(j))
                invariant
                    i <= j <= n,
                    n == s@.len(),
                    forall|m: int| i <= m < j ==> !is_ws(s@[m]),
                decreases n - j,
            {
                j = j + 1;
            }
            let word = s.substring_char(i, j).to_owned();
            proof {
                let rest = s@.skip(i as int);
                assert(rest[0] == s@[i as int]);
                assert forall|m: int| 0 <= m < j - i implies !is_ws(rest[m]) by {
                    assert(rest[m] == s@[i + m]);
                }
                if j < n {
                    assert(rest[j - i] == s@[j as int]);
                }
                lemma_first_ws_at(rest, j - i);
                assert(rest.take(j - i) =~= s@.subrange(i as int, j as int));
                assert(rest.skip(j - i) =~= s@.skip(j as int));
                assert((toks@.map_values(|t: String| t@)).push(word@) =~= (toks@.push(
                    word,
                )).map_values(|t: String| t@));
            }
            toks.push(word);
            i = j;
        }
    }
    proof {
        assert(s@.skip(n as int) =~= Seq::<char>::empty());
        assert(tokens_of(s@) =~= toks@.map_values(|t: String| t@));
    }
    toks
}

/// Removes the leading `':'` characters of `s`.
fn strip_colons_exec(s: &str) -> (r: String)
    ensures
        r@ == strip_colons(s@),
{
    let n = s.unicode_len();
    proof {
        assert(s@.skip(0) =~= s@);
    }
    let mut k: usize = 0;
    while k < n && s.get_char(k) == ':'
        invariant
            0 <= k <= n,
            n == s@.len(),
            strip_colons(s@) == strip_colons(s@.skip(k as int)),
        decreases n - k,
    {
        proof {
            assert(s@.skip(k as int)[0] == s@[k as int]);
            assert(s@.skip(k as int).drop_first() =~= s@.skip(k + 1));
        }
        k = k + 1;
    }
    proof {
        let rest = s@.skip(k as int);
        if k < n {
            assert(rest[0] == s@[k as int]);
        }
        assert(strip_colons(rest) == rest);
    }
    s.substring_char(k, n).to_owned()
}

/// `c` is `u` read case-insensitively: equal outright, or the lower-case
/// ASCII letter whose upper-case form is `u`.
pub open spec fn char_upper_eq(c: char, u: char) -> bool {
    c == u || (97 <= (c as u32) <= 122 && (c as u32) - 32 == (u as u32))
}

/// The word `tok`, upper-cased, is exactly the verb `verb`.
pub open spec fn is_verb(tok: Seq<char>, verb: Seq<char>) -> bool {
    tok.len() == verb.len() && forall|i: int|
        0 <= i < tok.len() ==> char_upper_eq(#[trigger] tok[i], verb[i])
}

/// Decides `is_verb`.
fn token_is(tok: &str, verb: &str) -> (r: bool)
    ensures
        r == is_verb(tok@, verb@),
{
    let tlen = tok.unicode_len();
    let vlen = verb.unicode_len();
    if tlen != vlen {
        return false;
    }
    let mut i: usize = 0;
    while i < tlen
        invariant
            0 <= i <= tlen,
            tlen == tok@.len(),
            tlen == verb@.len(),
            forall|j: int| 0 <= j < i ==> char_upper_eq(#[trigger] tok@[j], verb@[j]),
        decreases tlen - i,
    {
        let c = tok.get_char(i) as u32;
        let u = verb.get_char(i) as u32;
        if !(c == u || (97 <= c && c <= 122 && c - 32 == u)) {
            return false;
        }
        i = i + 1;
    }
    true
}

/// Every character of `t` is a decimal digit.
pub open spec fn all_digits(t: Seq<char>) -> bool {
    forall|i: int| 0 <= i < t.len() ==> 48 <= ((#[trigger] t[i]) as u32) <= 57
}

/// The number the digit string `t` denotes.
pub open spec fn digits_val(t: Seq<char>) -> int
    decreases t.len(),
{
    if t.len() == 0 {
        0
    } else {
        digits_val(t.drop_last()) * 10 + ((t.last() as u32) - 48)
    }
}

/// The digits of an index token: everything after an optional leading
/// `'+'`.
pub open spec fn index_digits(t: Seq<char>) -> Seq<char> {
    if t.len() > 0 && t[0] == '+' {
        t.drop_first()
    } else {
        t
    }
}

/// Whether `t` is a well-formed index token whose value fits the machine:
/// an optional `'+'`, then at least one digit, denoting at most
/// `usize::MAX`.
pub open spec fn is_index_token(t: Seq<char>) -> bool {
    &&& index_digits(t).len() > 0
    &&& all_digits(index_digits(t))
    &&& digits_val(index_digits(t)) <= usize::MAX
}

proof fn lemma_digits_val_bounds(t: Seq<char>)
    requires
        all_digits(t),
    ensures
        digits_val(t) >= 0,
        t.len() > 0 ==> digits_val(t) >= digits_val(t.drop_last()),
    decreases t.len(),
{
    if t.len() > 0 {
        assert(all_digits(t.drop_last())) by {
            assert(forall|i: int|
                0 <= i < t.drop_last().len() ==> t.drop_last()[i] == t[i]);
        }
        lemma_digits_val_bounds(t.drop_last());
    }
}

proof fn lemma_digits_val_prefix_le(t: Seq<char>, k: int)
    requires
        all_digits(t),
        0 <= k <= t.len(),
    ensures
        digits_val(t.take(k)) <= digits_val(t),
    decreases t.len() - k,
{
    if k < t.len() {
        lemma_digits_val_prefix_le(t, k + 1);
        assert(t.take(k + 1).drop_last() =~= t.take(k));
        assert(all_digits(t.take(k + 1))) by {
            assert(forall|i: int| 0 <= i < k + 1 ==> t.take(k + 1)[i] == t[i]);
        }
        lemma_digits_val_bounds(t.take(k + 1));
    } else {
        assert(t.take(k) =~= t);
    }
}

/// Parses a positive-or-zero index token; `None` on anything that is not
/// a number or does not fit.
fn parse_index(t: &str) -> (r: Option<usize>)
    ensures
        match r {
            Some(v) => is_index_token(t@) && v == digits_val(index_digits(t@)),
            None => !is_index_token(t@),
        },
{
    let n = t.unicode_len();
    let mut i: usize = 0;
    if n > 0 && t.get_char(0) == '+' {
        i = 1;
    }
    let ghost digits = index_digits(t@);
    proof {
        assert(digits =~= t@.skip(i as int));
    }
    if i >= n {
        return None;
    }
    let mut acc: u128 = 0;
    let mut k: usize = i;
    while k < n
        invariant
            i <= k <= n,
            n == t@.len(),
            digits == index_digits(t@),
            digits == t@.skip(i as int),
            all_digits(digits.take((k - i) as int)),
            acc as int == digits_val(digits.take((k - i) as int)),
            acc <= usize::MAX,
        decreases n - k,
    {
        let c = t.get_char(k) as u32;
        proof {
            assert(digits[(k - i) as int] == t@[k as int]);
        }
        if !(48 <= c && c <= 57) {
            proof {
                assert(!(48 <= (digits[(k - i) as int] as u32) <= 57));
                assert(!all_digits(digits));
            }
            return None;
        }
        let d = c - 48;
        let next: u128 = acc * 10 + (d as u128);
        proof {
            assert(digits.take((k - i) + 1).drop_last() =~= digits.take((k - i) as int));
            assert(digits.take((k - i) + 1).last() == digits[(k - i) as int]);
            assert(all_digits(digits.take((k - i) + 1))) by {
                assert(forall|m: int|
                    0 <= m < (k - i) + 1 ==> digits.take((k - i) + 1)[m] == digits[m]);
            }
        }
        if next > usize::MAX as u128 {
            proof {
                assert(digits_val(digits.take((k - i) + 1)) == acc as int * 10 + d);
                if all_digits(digits) {
                    lemma_digits_val_prefix_le(digits, (k - i) + 1);
                    assert(digits_val(digits) > usize::MAX);
                }
                assert(!is_index_token(t@));
            }
            return None;
        }
        acc = next;
        k = k + 1;
    }
    proof {
        assert(digits.take((n - i) as int) =~= digits);
    }
    Some(acc as usize)
}

/// The zero-based queue positions a REMOVE command names: each
/// well-formed, strictly positive index, less one; ill-formed and zero
/// indices contribute nothing.
pub open spec fn remove_targets(args: Seq<Seq<char>>) -> Seq<usize>
    decreases args.len(),
{
    if args.len() == 0 {
        Seq::empty()
    } else {
        let rest = remove_targets(args.drop_last());
        if is_index_token(args.last()) && digits_val(index_digits(args.last())) > 0 {
            rest.push((digits_val(index_digits(args.last())) - 1) as usize)
        } else {
            rest
        }
    }
}

/// Whether any REMOVE argument is ill-formed.
pub open spec fn any_bad_index(args: Seq<Seq<char>>) -> bool {
    exists|i: int| 0 <= i < args.len() && !is_index_token(#[trigger] args[i])
}

/// The selection after the interpreter's closing one-step move up.
pub open spec fn sel_after_up(a: App) -> Option<usize> {
    match a.selection_index {
        Some(i) => Some(clamp_index(a.listing_len(), i - 1) as usize),
        None => None,
    }
}

/// What one command does to the engine, given the buffer text `s` and the
/// action `r` handed back: the frame (only the selection, queue, error
/// slot and play style may move), the closing one-step cursor move, and
/// the per-verb effect.
pub open spec fn command_effect(pre: App, post: App, s: Seq<char>, r: CommandAction) -> bool {
    let ts = cmd_tokens(s);
    &&& post == (App {
        selection_index: post.selection_index,
        play_music_list: post.play_music_list,
        error: post.error,
        play_style: post.play_style,
        ..pre
    })
    &&& post.selection_index == sel_after_up(pre)
    &&& (ts.len() > 0 && (is_verb(ts[0], "REMOVE"@) || is_verb(ts[0], "RM"@)) ==> {
        &&& post.play_music_list@ == remove_indices(
            pre.play_music_list@,
            sort_desc_spec(remove_targets(ts.drop_first())),
        )
        &&& !any_bad_index(ts.drop_first()) ==> post.error == pre.error
        &&& any_bad_index(ts.drop_first()) ==> (post.error matches Some(e) && e@
            == "It must be a positive integer"@)
        &&& post.play_style == pre.play_style
        &&& r is Nothing
    })
    &&& (ts.len() > 0 && (is_verb(ts[0], "CLEAR"@) || is_verb(ts[0], "CLS"@)) ==> {
        &&& post.play_music_list@.len() == 0
        &&& post.error == pre.error
        &&& post.play_style == pre.play_style
        &&& r is Nothing
    })
    &&& (ts.len() > 0 && is_verb(ts[0], "ALL"@) ==> {
        &&& post.play_music_list == pre.play_music_list
        &&& post.error == pre.error
        &&& post.play_style == pre.play_style
        &&& (r matches CommandAction::LoadAll(paths) && paths@.map_values(|p: String| p@)
            == audio_file_paths(pre.directory_contents@))
    })
    &&& (ts.len() > 0 && (is_verb(ts[0], "ORDER"@) || is_verb(ts[0], "OD"@)) ==> {
        &&& post.play_music_list == pre.play_music_list
        &&& post.error == pre.error
        &&& post.play_style == PlayStyle::PlayOrder
        &&& r is Nothing
    })
    &&& (ts.len() > 0 && (is_verb(ts[0], "SINGLECYCLE"@) || is_verb(ts[0], "SC"@)) ==> {
        &&& post.play_music_list == pre.play_music_list
        &&& post.error == pre.error
        &&& post.play_style == PlayStyle::SingleCycle
        &&& r is Nothing
    })
    &&& (ts.len() > 0 && (is_verb(ts[0], "NEXT"@) || is_verb(ts[0], "N"@)) ==> {
        &&& post.play_music_list == pre.play_music_list
        &&& post.error == pre.error
        &&& post.play_style == pre.play_style
        &&& r is PlayNext
    })
    &&& (ts.len() > 0 && (is_verb(ts[0], "SHUFFLE"@) || is_verb(ts[0], "SH"@)) ==> {
        &&& post.play_music_list@.to_multiset() == pre.play_music_list@.to_multiset()
        &&& post.error == pre.error
        &&& post.play_style == pre.play_style
        &&& r is Nothing
    })
    &&& (ts.len() == 0 || !(is_verb(ts[0], "REMOVE"@) || is_verb(ts[0], "RM"@) || is_verb(
        ts[0],
        "CLEAR"@,
    ) || is_verb(ts[0], "CLS"@) || is_verb(ts[0], "ALL"@) || is_verb(ts[0], "ORDER"@)
        || is_verb(ts[0], "OD"@) || is_verb(ts[0], "SINGLECYCLE"@) || is_verb(ts[0], "SC"@)
        || is_verb(ts[0], "NEXT"@) || is_verb(ts[0], "N"@) || is_verb(ts[0], "SHUFFLE"@)
        || is_verb(ts[0], "SH"@)) ==> {
        &&& post.play_music_list == pre.play_music_list
        &&& (post.error matches Some(e) && e@ == "Not a command"@)
        &&& post.play_style == pre.play_style
        &&& r is Nothing
    })
}

/// No word can be two different verbs at once: the verb pairs of equal
/// length differ in their first letter.
proof fn lemma_verbs_distinct(t: Seq<char>)
    ensures
        !(is_verb(t, "CLS"@) && is_verb(t, "ALL"@)),
        !(is_verb(t, "CLEAR"@) && is_verb(t, "ORDER"@)),
        !(is_verb(t, "RM"@) && is_verb(t, "OD"@)),
        !(is_verb(t, "RM"@) && is_verb(t, "SC"@)),
        !(is_verb(t, "RM"@) && is_verb(t, "SH"@)),
        !(is_verb(t, "OD"@) && is_verb(t, "SC"@)),
        !(is_verb(t, "OD"@) && is_verb(t, "SH"@)),
        !(is_verb(t, "SC"@) && is_verb(t, "SH"@)),
{
    broadcast use vstd::string::group_string_axioms;

    reveal_strlit("CLS");
    reveal_strlit("ALL");
    reveal_strlit("CLEAR");
    reveal_strlit("ORDER");
    reveal_strlit("RM");
    reveal_strlit("OD");
    reveal_strlit("SC");
    reveal_strlit("SH");
    assert("CLS"@[0] == 'C' && "ALL"@[0] == 'A' && "CLEAR"@[0] == 'C' && "ORDER"@[0] == 'O'
        && "RM"@[0] == 'R' && "OD"@[0] == 'O' && "SC"@[0] == 'S' && "SH"@[0] == 'S');
    assert("SC"@[1] == 'C' && "SH"@[1] == 'H');
    if t.len() > 0 {
        let c = t[0];
        assert(is_verb(t, "CLS"@) ==> char_upper_eq(c, "CLS"@[0]));
        assert(is_verb(t, "ALL"@) ==> char_upper_eq(c, "ALL"@[0]));
        assert(is_verb(t, "CLEAR"@) ==> char_upper_eq(c, "CLEAR"@[0]));
        assert(is_verb(t, "ORDER"@) ==> char_upper_eq(c, "ORDER"@[0]));
        assert(is_verb(t, "RM"@) ==> char_upper_eq(c, "RM"@[0]));
        assert(is_verb(t, "OD"@) ==> char_upper_eq(c, "OD"@[0]));
        assert(is_verb(t, "SC"@) ==> char_upper_eq(c, "SC"@[0]));
        assert(is_verb(t, "SH"@) ==> char_upper_eq(c, "SH"@[0]));
    }
    if t.len() > 1 {
        let c1 = t[1];
        assert(is_verb(t, "SC"@) ==> char_upper_eq(c1, "SC"@[1]));
        assert(is_verb(t, "SH"@) ==> char_upper_eq(c1, "SH"@[1]));
    }
}

/// Parses the REMOVE arguments and strikes the named entries from the
/// queue, highest position first; each ill-formed argument is reported,
/// the well-formed ones still take effect.
fn remove_command(app: &mut App, args: &Vec<String>)
    requires
        old(app).wf(),
    ensures
        final(app).wf(),
        final(app).play_music_list@ == remove_indices(
            old(app).play_music_list@,
            sort_desc_spec(remove_targets(args@.map_values(|t: String| t@))),
        ),
        !any_bad_index(args@.map_values(|t: String| t@)) ==> final(app).error == old(app).error,
        any_bad_index(args@.map_values(|t: String| t@)) ==> (final(app).error matches Some(e)
            && e@ == "It must be a positive integer"@),
        self_frame(final(app), old(app)),
    {
        let ghost ts = args@.map_values(|t: String| t@);
        let mut remove_index: Vec<usize> = Vec::new();
        let mut k: usize = 0;
        while k < args.len()
            invariant
                0 <= k <= args@.len(),
                ts == args@.map_values(|t: String| t@),
                remove_index@ == remove_targets(ts.take(k as int)),
                app.play_music_list == old(app).play_music_list,
                self_frame(app, old(app)),
                app.error == if any_bad_index(ts.take(k as int)) {
                    Some(app.error.unwrap())
                } else {
                    old(app).error
                },
                any_bad_index(ts.take(k as int)) ==> (app.error matches Some(e) && e@
                    == "It must be a positive integer"@),
                old(app).wf(),
                app.wf(),
            decreases args@.len() - k,
        {
            proof {
                assert(ts.take(k + 1).drop_last() =~= ts.take(k as int));
                assert(ts.take(k + 1).last() == ts[k as int]);
                assert(ts[k as int] == args@[k as int]@);
            }
            match parse_index(args[k].as_str()) {
                Some(index) => {
                    if index > 0 {
                        remove_index.push(index - 1);
                    }
                },
                None => {
                    app.error = Some("It must be a positive integer".to_owned());
                },
            }
            proof {
                if any_bad_index(ts.take(k + 1)) && !any_bad_index(ts.take(k as int)) {
                    assert(!is_index_token(ts[k as int])) by {
                        let i = choose|i: int|
                            0 <= i < ts.take(k + 1).len() && !is_index_token(
                                #[trigger] ts.take(k + 1)[i],
                            );
                        if i < k {
                            assert(!is_index_token(ts.take(k as int)[i]));
                        }
                    }
                }
            }
            k = k + 1;
        }
        proof {
            assert(ts.take(ts.len() as int) =~= ts);
        }
        if remove_index.len() > 0 {
            app.remove_play_list_by_id(remove_index);
        } else {
            proof {
                assert(remove_targets(ts).len() == 0);
                assert(remove_indices(
                    app.play_music_list@,
                    sort_desc_spec(remove_targets(ts)),
                ) =~= app.play_music_list@);
            }
        }
    }

/// All fields of `a` besides the queue and the error slot are those of
/// `b`.
pub open spec fn self_frame(a: &App, b: &App) -> bool {
    *a == (App { play_music_list: a.play_music_list, error: a.error, ..*b })
}

/// Runs one command string against the engine: dispatches the verb, then
/// moves the selection cursor one step up, as every command does.  The
/// returned action is what the caller still has to carry out.
pub fn process_command(app: &mut App, command_string: String) -> (r: CommandAction)
    requires
        old(app).wf(),
    ensures
        final(app).wf(),
        command_effect(*old(app), *final(app), command_string@, r),
{
    let stripped = strip_colons_exec(command_string.as_str());
    let toks = tokenize(stripped.as_str());
    let ghost ts = cmd_tokens(command_string@);
    proof {
        assert(ts == toks@.map_values(|t: String| t@));
        assert(ts.len() == toks@.len());
    }
    broadcast use vstd::string::group_string_axioms;

    proof {
        reveal_strlit("REMOVE");
        reveal_strlit("RM");
        reveal_strlit("CLEAR");
        reveal_strlit("CLS");
        reveal_strlit("ALL");
        reveal_strlit("ORDER");
        reveal_strlit("OD");
        reveal_strlit("SINGLECYCLE");
        reveal_strlit("SC");
        reveal_strlit("NEXT");
        reveal_strlit("N");
        reveal_strlit("SHUFFLE");
        reveal_strlit("SH");
        if ts.len() > 0 {
            lemma_verbs_distinct(ts[0]);
        }
    }
    let mut r = CommandAction::Nothing;
    if toks.len() == 0 {
        app.error = Some("Not a command".to_owned());
    } else {
        let verb = toks[0].as_str();
        proof {
            assert(ts[0] == toks@[0]@);
        }
        let is_remove = token_is(verb, "REMOVE") || token_is(verb, "RM");
        let is_clear = token_is(verb, "CLEAR") || token_is(verb, "CLS");
        let is_all = token_is(verb, "ALL");
        let is_order = token_is(verb, "ORDER") || token_is(verb, "OD");
        let is_single = token_is(verb, "SINGLECYCLE") || token_is(verb, "SC");
        let is_next = token_is(verb, "NEXT") || token_is(verb, "N");
        let is_shuffle = token_is(verb, "SHUFFLE") || token_is(verb, "SH");
        if is_remove {
            let args: Vec<String> = split_off_first(toks);
            remove_command(app, &args);
        } else if is_clear {
            app.clear_play_music_list();
        } else if is_all {
            r = CommandAction::LoadAll(app.files_to_add());
        } else if is_order {
            app.set_play_style(PlayStyle::PlayOrder);
        } else if is_single {
            app.set_play_style(PlayStyle::SingleCycle);
        } else if is_next {
            r = CommandAction::PlayNext;
        } else if is_shuffle {
            app.shuffle_playlist();
        } else {
            app.error = Some("Not a command".to_owned());
        }
    }
    app.move_select_up(1);
    r
}

impl App {
    /// Runs the command standing in the buffer: the buffer is taken and
    /// cleared, the verb dispatched as `process_command` says, and the
    /// engine returns to browsing.  The caller performs the returned
    /// action and then relists the current directory.
    pub fn execute_command(&mut self) -> (r: CommandAction)
        requires
            old(self).wf(),
        ensures
            final(self).wf(),
            final(self).command_buffer@.len() == 0,
            final(self).mode == Mode::Browse,
            command_effect(
                App {
                    command_buffer: final(self).command_buffer,
                    mode: Mode::Browse,
                    ..*old(self)
                },
                *final(self),
                old(self).command_buffer@,
                r,
            ),
    {
        let command_string = self.get_command_strign();
        self.command_buffer = Vec::new();
        let r = process_command(self, command_string);
        self.set_mode(Mode::Browse);
        r
    }
}

/// The vector without its first element.
fn split_off_first(toks: Vec<String>) -> (rest: Vec<String>)
    requires
        toks@.len() > 0,
    ensures
        rest@ == toks@.drop_first(),
        rest@.map_values(|t: String| t@) == toks@.map_values(|t: String| t@).drop_first(),
{
    let ghost orig = toks@;
    let mut toks = toks;
    toks.remove(0);
    proof {
        assert(toks@ =~= orig.drop_first());
        assert(toks@.map_values(|t: String| t@) =~= orig.map_values(
            |t: String| t@,
        ).drop_first());
    }
    toks
}

} // verus!
