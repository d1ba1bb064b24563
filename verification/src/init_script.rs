//! Initialization-script handling: finding `$(...)` substitutions in a
//! line, splicing their outputs back in, splitting the resolved line into
//! shell words, and assembling the invoke arguments.

use vstd::prelude::*;
use crate::strutil::{self, spec_starts_with, spec_trim};
use crate::clients::Error;

verus! {

/// Position of the first `$(` at or after `i`, or the length of `s` when
/// there is none.
pub open spec fn next_dollar(s: Seq<char>, i: int) -> int
    decreases s.len() - i,
{
    if i < 0 || i + 1 >= s.len() {
        s.len() as int
    } else if s[i] == '$' && s[i + 1] == '(' {
        i
    } else {
        next_dollar(s, i + 1)
    }
}

/// Position of the first `)` at or after `i`, or the length of `s`.
pub open spec fn next_close(s: Seq<char>, i: int) -> int
    decreases s.len() - i,
{
    if 0 <= i < s.len() && s[i] != ')' {
        next_close(s, i + 1)
    } else {
        i
    }
}

pub proof fn lemma_next_dollar_bounds(s: Seq<char>, i: int)
    requires
        0 <= i <= s.len(),
    ensures
        i <= next_dollar(s, i) <= s.len(),
    decreases s.len() - i,
{
    if !(i + 1 >= s.len()) && !(s[i] == '$' && s[i + 1] == '(') {
        lemma_next_dollar_bounds(s, i + 1);
    }
}

pub proof fn lemma_next_close_bounds(s: Seq<char>, i: int)
    requires
        0 <= i <= s.len(),
    ensures
        i <= next_close(s, i) <= s.len(),
    decreases s.len() - i,
{
    if i < s.len() && s[i] != ')' {
        lemma_next_close_bounds(s, i + 1);
    }
}

/// When a `$(` is found, it lies fully inside the line.
pub proof fn lemma_next_dollar_hit(s: Seq<char>, i: int)
    requires
        0 <= i <= s.len(),
    ensures
        next_dollar(s, i) < s.len() ==> next_dollar(s, i) + 2 <= s.len(),
    decreases s.len() - i,
{
    if !(i + 1 >= s.len()) && !(s[i] == '$' && s[i + 1] == '(') {
        lemma_next_dollar_hit(s, i + 1);
    }
}

/// The texts of the `$(...)` substitutions of `s` from `i` on, in order.
pub open spec fn commands_of(s: Seq<char>, i: int) -> Seq<Seq<char>>
    decreases s.len() - i,
{
    if i < 0 || i > s.len() {
        Seq::empty()
    } else {
        let d = next_dollar(s, i);
        if d >= s.len() {
            Seq::empty()
        } else {
            proof {
                lemma_next_dollar_bounds(s, i);
                lemma_next_dollar_hit(s, i);
                lemma_next_close_bounds(s, d + 2);
            }
            let c = next_close(s, d + 2);
            if c >= s.len() {
                Seq::empty()
            } else {
                seq![s.subrange(d + 2, c)] + commands_of(s, c + 1)
            }
        }
    }
}

/// `s` from `i` on with its `j`-th and later substitutions replaced by
/// `outs[j]`, `outs[j + 1]`, and so on.
pub open spec fn resolved_from(s: Seq<char>, i: int, outs: Seq<Seq<char>>, j: int) -> Seq<char>
    decreases s.len() - i,
{
    if i < 0 || i > s.len() {
        Seq::empty()
    } else {
        let d = next_dollar(s, i);
        if d >= s.len() {
            s.subrange(i, s.len() as int)
        } else {
            proof {
                lemma_next_dollar_bounds(s, i);
                lemma_next_dollar_hit(s, i);
                lemma_next_close_bounds(s, d + 2);
            }
            let c = next_close(s, d + 2);
            if c >= s.len() {
                s.subrange(i, s.len() as int)
            } else {
                s.subrange(i, d) + outs[j] + resolved_from(s, c + 1, outs, j + 1)
            }
        }
    }
}

fn find_dollar(l: &str, from: usize) -> (r: usize)
    requires
        from <= l@.len(),
    ensures
        r == next_dollar(l@, from as int),
        from <= r <= l@.len(),
        r < l@.len() ==> r + 2 <= l@.len(),
{
    let len = l.unicode_len();
    let mut i: usize = from;
    while i < len
        invariant
            len == l@.len(),
            from <= i <= len,
            next_dollar(l@, from as int) == next_dollar(l@, i as int),
        decreases len - i,
    {
        if i + 1 >= len {
            proof {
                assert(next_dollar(l@, i as int) == l@.len());
            }
            i = len;
        } else if l.get_char(i) == '$' && l.get_char(i + 1) == '(' {
            proof {
                assert(next_dollar(l@, i as int) == i as int);
            }
            return i;
        } else {
            i = i + 1;
        }
    }
    proof {
        assert(next_dollar(l@, i as int) == l@.len());
    }
    len
}

fn find_close(l: &str, from: usize) -> (r: usize)
    requires
        from <= l@.len(),
    ensures
        r == next_close(l@, from as int),
        from <= r <= l@.len(),
{
    let len = l.unicode_len();
    let mut i: usize = from;
    while i < len && l.get_char(i) != ')'
        invariant
            len == l@.len(),
            from <= i <= len,
            next_close(l@, from as int) == next_close(l@, i as int),
        decreases len - i,
    {
        i = i + 1;
    }
    i
}

/// Extracts the `$(...)` substitution commands of one line, in order.
pub fn split_commands(line: &str) -> (r: Vec<String>)
    ensures
        r.deep_view() == commands_of(line@, 0),
{
    let len = line.unicode_len();
    let mut r: Vec<String> = Vec::new();
    let mut i: usize = 0;
    while i < len
        invariant
            len == line@.len(),
            i <= len,
            r.deep_view() + commands_of(line@, i as int) =~= commands_of(line@, 0),
        decreases len - i,
    {
        let d = find_dollar(line, i);
        if d >= len {
            proof {
                assert(commands_of(line@, i as int) =~= Seq::<Seq<char>>::empty());
                assert(r.deep_view() =~= commands_of(line@, 0));
            }
            i = len;
        } else {
            let c = find_close(line, d + 2);
            if c >= len {
                proof {
                    assert(commands_of(line@, i as int) =~= Seq::<Seq<char>>::empty());
                    assert(r.deep_view() =~= commands_of(line@, 0));
                }
                i = len;
            } else {
                let ghost old_dv = r.deep_view();
                let cmd = line.substring_char(d + 2, c);
                r.push(String::from_str(cmd));
                proof {
                    assert(commands_of(line@, i as int) == seq![line@.subrange(d + 2, c as int)]
                        + commands_of(line@, c + 1));
                    assert(r.deep_view() =~= old_dv.push(line@.subrange(d + 2, c as int)));
                    assert(r.deep_view() + commands_of(line@, c + 1) =~= old_dv + commands_of(
                        line@,
                        i as int,
                    ));
                }
                i = c + 1;
            }
        }
    }
    proof {
        assert(commands_of(line@, i as int) =~= Seq::<Seq<char>>::empty());
        assert(r.deep_view() =~= commands_of(line@, 0));
    }
    r
}

/// Splices the substitutions' outputs back into the line, in order.
pub fn resolve_line(line: &str, outputs: &Vec<String>) -> (r: String)
    requires
        outputs.deep_view().len() >= commands_of(line@, 0).len(),
    ensures
        r@ == resolved_from(line@, 0, outputs.deep_view(), 0),
{
    let len = line.unicode_len();
    let olen = outputs.len();
    let mut r = String::new();
    let mut i: usize = 0;
    let mut j: usize = 0;
    while i < len
        invariant
            len == line@.len(),
            olen == outputs@.len(),
            outputs.deep_view().len() == olen,
            i <= len,
            j <= olen,
            outputs.deep_view().len() >= j + commands_of(line@, i as int).len(),
            r@ + resolved_from(line@, i as int, outputs.deep_view(), j as int) =~= resolved_from(
                line@,
                0,
                outputs.deep_view(),
                0,
            ),
        decreases len - i,
    {
        let ghost outs = outputs.deep_view();
        let d = find_dollar(line, i);
        if d >= len {
            r.append(line.substring_char(i, len));
            proof {
                assert(resolved_from(line@, i as int, outs, j as int) == line@.subrange(
                    i as int,
                    len as int,
                ));
                assert(resolved_from(line@, len as int, outs, j as int)
                    =~= Seq::<char>::empty());
            }
            i = len;
        } else {
            let c = find_close(line, d + 2);
            if c >= len {
                r.append(line.substring_char(i, len));
                proof {
                    assert(resolved_from(line@, i as int, outs, j as int) == line@.subrange(
                        i as int,
                        len as int,
                    ));
                    assert(resolved_from(line@, len as int, outs, j as int)
                        =~= Seq::<char>::empty());
                }
                i = len;
            } else {
                proof {
                    assert(commands_of(line@, i as int) == seq![line@.subrange(d + 2, c as int)]
                        + commands_of(line@, c + 1));
                }
                r.append(line.substring_char(i, d));
                r.append(outputs[j].as_str());
                proof {
                    assert(outs[j as int] == outputs@[j as int]@);
                    assert(resolved_from(line@, i as int, outs, j as int) == line@.subrange(
                        i as int,
                        d as int,
                    ) + outs[j as int] + resolved_from(line@, c + 1, outs, j + 1));
                    assert(r@ + resolved_from(line@, c + 1, outs, j + 1) =~= resolved_from(
                        line@,
                        0,
                        outs,
                        0,
                    ));
                }
                i = c + 1;
                j = j + 1;
            }
        }
    }
    proof {
        assert(resolved_from(line@, i as int, outputs.deep_view(), j as int)
            =~= Seq::<char>::empty());
        assert(r@ =~= resolved_from(line@, 0, outputs.deep_view(), 0));
    }
    r
}

/// POSIX-shell word splitting of one line, or nothing for erroneous
/// input.
pub uninterp spec fn shell_split(s: Seq<char>) -> Option<Seq<Seq<char>>>;

/// Relies on shlex::split: splits a line into words using POSIX shell
/// syntax, refusing erroneous input. The result depends on the characters
/// alone.
#[verifier::external_body]
pub fn split_shell_words(s: &str) -> (r: Option<Vec<String>>)
    ensures
        r is Some <==> shell_split(s@) is Some,
        r matches Some(v) ==> shell_split(s@) == Option::Some(v.deep_view()),
{
    shlex::split(s)
}

/// A word that selects the source account for one invocation.
pub open spec fn is_account_word(p: Seq<char>) -> bool {
    spec_starts_with(p, "STELLAR_ACCOUNT="@)
}

/// The words of `ps` that select a source account, in order.
pub open spec fn account_words(ps: Seq<Seq<char>>) -> Seq<Seq<char>> {
    ps.filter(|p: Seq<char>| is_account_word(p))
}

/// The words of `ps` that belong to the command itself, in order.
pub open spec fn command_words(ps: Seq<Seq<char>>) -> Seq<Seq<char>> {
    ps.filter(|p: Seq<char>| !is_account_word(p))
}

/// The full argument list of one script line's invocation: the contract
/// identifier, the source account when one was selected, and the command
/// words after a separator.
pub open spec fn invoke_args_spec(ps: Seq<Seq<char>>, id: Seq<char>) -> Seq<Seq<char>> {
    let head = seq!["--id"@, id];
    let acct = if account_words(ps).len() > 0 {
        seq!["--source-account"@, account_words(ps)[0].skip(16)]
    } else {
        Seq::empty()
    };
    head + acct + seq!["--"@] + command_words(ps)
}

/// Assembles the invoke arguments of one resolved, split script line.
#[verifier::rlimit(30)]
pub fn build_invoke_args(parts: &Vec<String>, contract_id: &str) -> (r: Vec<String>)
    ensures
        r.deep_view() == invoke_args_spec(parts.deep_view(), contract_id@),
{
    let ghost ps = parts.deep_view();
    let mut accounts: Vec<String> = Vec::new();
    let mut command: Vec<String> = Vec::new();
    let mut i: usize = 0;
    proof {
        reveal(Seq::filter);
        assert(ps.take(0) =~= Seq::<Seq<char>>::empty());
    }
    while i < parts.len()
        invariant
            ps == parts.deep_view(),
            ps.len() == parts@.len(),
            i <= ps.len(),
            accounts.deep_view() =~= account_words(ps.take(i as int)),
            command.deep_view() =~= command_words(ps.take(i as int)),
        decreases ps.len() - i,
    {
        proof {
            reveal(Seq::filter);
            assert(ps.take(i + 1).drop_last() =~= ps.take(i as int));
            assert(ps.take(i + 1).last() == ps[i as int]);
            assert(ps[i as int] == parts@[i as int]@);
        }
        if strutil::starts_with(parts[i].as_str(), "STELLAR_ACCOUNT=") {
            let ghost old_dv = accounts.deep_view();
            accounts.push(parts[i].clone());
            proof {
                assert(account_words(ps.take(i + 1)) == account_words(ps.take(i as int)).push(
                    ps[i as int],
                ));
                assert(accounts.deep_view() =~= old_dv.push(ps[i as int]));
                assert(command_words(ps.take(i + 1)) == command_words(ps.take(i as int)));
            }
        } else {
            let ghost old_dv = command.deep_view();
            command.push(parts[i].clone());
            proof {
                assert(command_words(ps.take(i + 1)) == command_words(ps.take(i as int)).push(
                    ps[i as int],
                ));
                assert(command.deep_view() =~= old_dv.push(ps[i as int]));
                assert(account_words(ps.take(i + 1)) == account_words(ps.take(i as int)));
            }
        }
        i = i + 1;
    }
    proof {
        assert(ps.take(ps.len() as int) =~= ps);
    }
    let mut r: Vec<String> = Vec::new();
    r.push(String::from_str("--id"));
    r.push(String::from_str(contract_id));
    if accounts.len() > 0 {
        r.push(String::from_str("--source-account"));
        let first = &accounts[0];
        let flen = first.unicode_len();
        proof {
            assert(accounts.deep_view()[0] == account_words(ps)[0]);
            assert(spec_starts_with(first@, "STELLAR_ACCOUNT="@));
            reveal_strlit("STELLAR_ACCOUNT=");
        }
        let stripped = first.as_str().substring_char(16, flen);
        r.push(String::from_str(stripped));
    }
    r.push(String::from_str("--"));
    let mut k: usize = 0;
    let ghost base = r.deep_view();
    while k < command.len()
        invariant
            k <= command@.len(),
            r.deep_view() =~= base + command.deep_view().take(k as int),
        decreases command@.len() - k,
    {
        let ghost old_dv = r.deep_view();
        r.push(command[k].clone());
        proof {
            let cdv = command.deep_view();
            assert(cdv[k as int] == command@[k as int]@);
            assert(r.deep_view() =~= old_dv.push(cdv[k as int]));
            assert(cdv.take(k + 1) =~= cdv.take(k as int).push(cdv[k as int]));
        }
        k = k + 1;
    }
    proof {
        assert(command.deep_view().take(command@.len() as int) =~= command.deep_view());
        assert(r.deep_view() =~= invoke_args_spec(ps, contract_id@));
    }
    r
}

/// One processed script line: nothing for a blank line, or the argument
/// list of its invocation.
pub fn process_init_line(line: &str, outputs: &Vec<String>, contract_id: &str) -> (r: Result<
    Option<Vec<String>>,
    Error,
>)
    requires
        outputs.deep_view().len() >= commands_of(spec_trim(line@), 0).len(),
    ensures
        ({
            let resolved = resolved_from(spec_trim(line@), 0, outputs.deep_view(), 0);
            match r {
                Ok(None) => spec_trim(line@).len() == 0,
                Ok(Some(args)) => {
                    &&& spec_trim(line@).len() > 0
                    &&& shell_split(resolved) is Some
                    &&& args.deep_view() == invoke_args_spec(
                        shell_split(resolved)->0,
                        contract_id@,
                    )
                },
                Err(e) => {
                    &&& spec_trim(line@).len() > 0
                    &&& shell_split(resolved) is None
                    &&& e matches Error::InitParseFailure(l) && l@ == resolved
                },
            }
        }),
{
    let trimmed = strutil::trim(line);
    if trimmed.unicode_len() == 0 {
        return Ok(None);
    }
    let resolved = resolve_line(trimmed, outputs);
    match split_shell_words(resolved.as_str()) {
        None => Err(Error::InitParseFailure(resolved)),
        Some(parts) => Ok(Some(build_invoke_args(&parts, contract_id))),
    }
}

} // verus!
