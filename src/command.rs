//! Remote shell commands: the command lines sent, and how the exit status is
//! read back from the output.
use remotefs::{RemoteError, RemoteErrorType};
use vstd::prelude::*;

use crate::errors::error_with_text;
use crate::text::{
    chars_of, decimal_u32, leading_ws, parse_u32, skip_leading_ws, skip_trailing_ws, string_of,
    trailing_ws, trim, trim_end,
};

verus! {

/// Index of the last newline of `t`, or -1 when it has none.
pub open spec fn last_newline(t: Seq<char>) -> int
    decreases t.len(),
{
    if t.len() == 0 {
        -1
    } else if t.last() == '\n' {
        t.len() - 1
    } else {
        last_newline(t.drop_last())
    }
}

/// The exit status and the command's own output, read from the output of a
/// command followed by `echo $?`. The last line of the output (trailing
/// whitespace aside) is the status; everything up to and including the
/// newline before it is the command's output. Without a newline the whole
/// trimmed output is the status and the command's output is empty. `None`
/// when the status is not an unsigned decimal number.
pub open spec fn exit_status(output: Seq<char>) -> Option<(u32, Seq<char>)> {
    let e = trim_end(output);
    let k = last_newline(e);
    if k >= 0 {
        match decimal_u32(trim(e.subrange(k + 1, e.len() as int))) {
            Some(code) => Some((code, output.subrange(0, k + 1))),
            None => None,
        }
    } else {
        match decimal_u32(trim(output)) {
            Some(code) => Some((code, Seq::empty())),
            None => None,
        }
    }
}

proof fn lemma_last_newline(t: Seq<char>, k: int)
    requires
        -1 <= k < t.len(),
        k >= 0 ==> t[k] == '\n',
        forall|j: int| k < j < t.len() ==> #[trigger] t[j] != '\n',
    ensures
        last_newline(t) == k,
    decreases t.len(),
{
    if t.len() > 0 && t.last() != '\n' {
        let u = t.drop_last();
        assert forall|j: int| k < j < u.len() implies #[trigger] u[j] != '\n' by {
            assert(u[j] == t[j]);
        }
        if k >= 0 {
            assert(u[k] == t[k]);
        }
        lemma_last_newline(u, k);
    }
}

/// The bounds of `trim(cs[from..to])` within `cs`.
fn trim_range(cs: &Vec<char>, from: usize, to: usize) -> (r: (usize, usize))
    requires
        from <= to <= cs.len(),
    ensures
        from <= r.0 <= r.1 <= to,
        cs@.subrange(r.0 as int, r.1 as int) == trim(cs@.subrange(from as int, to as int)),
        r.1 == to - trailing_ws(cs@.subrange(from as int, to as int)),
        r.0 == from + leading_ws(trim_end(cs@.subrange(from as int, to as int))),
{
    let ghost sub = cs@.subrange(from as int, to as int);
    let end = skip_trailing_ws(cs, from, to);
    proof {
        crate::text::lemma_trailing_ws_bound(sub);
        assert(trim_end(sub) =~= cs@.subrange(from as int, end as int));
    }
    let start = skip_leading_ws(cs, from, end);
    proof {
        crate::text::lemma_leading_ws_bound(cs@.subrange(from as int, end as int));
        assert(cs@.subrange(start as int, end as int) =~= trim(sub));
    }
    (start, end)
}

/// The command line that runs `cmd` and then prints its exit status.
pub fn exit_code_command(cmd: &str) -> (r: String)
    ensures
        r@ == cmd@ + "; echo $?"@,
{
    let mut r = cmd.to_owned();
    r.append("; echo $?");
    r
}

/// The command line that runs `cmd` in the directory `dir`.
pub fn command_at(dir: &str, cmd: &str) -> (r: String)
    ensures
        r@ == "cd \""@ + dir@ + "\"; "@ + cmd@,
{
    let mut r = "cd \"".to_owned();
    r.append(dir);
    r.append("\"; ");
    r.append(cmd);
    r
}

/// Splits the output of a command run through `exit_code_command` into its
/// exit status and the command's own output (see `exit_status`). A status
/// that is not an unsigned decimal number is a `ProtocolError`.
pub fn parse_exit_code(output: &str) -> (r: Result<(u32, String), RemoteError>)
    ensures
        match exit_status(output@) {
            Some((code, out)) => r is Ok && r->Ok_0.0 == code && r->Ok_0.1@ == out,
            None => r is Err && r->Err_0.kind == RemoteErrorType::ProtocolError,
        },
{
    let cs = chars_of(output);
    assert(cs@.subrange(0, cs@.len() as int) =~= output@);
    let end = skip_trailing_ws(&cs, 0, cs.len());
    let ghost e = cs@.subrange(0, end as int);
    proof {
        crate::text::lemma_trailing_ws_bound(output@);
        assert(e =~= trim_end(output@));
    }
    let mut j: usize = end;
    while j > 0 && cs[j - 1] != '\n'
        invariant
            j <= end <= cs.len(),
            forall|x: int| j <= x < end ==> #[trigger] cs@[x] != '\n',
        decreases j,
    {
        j -= 1;
    }
    let ghost k: int = j - 1;
    proof {
        assert forall|x: int| k < x < e.len() implies #[trigger] e[x] != '\n' by {
            assert(e[x] == cs@[x]);
        }
        if k >= 0 {
            assert(e[k] == cs@[j - 1]);
        }
        lemma_last_newline(e, k);
    }
    let code_text = if j > 0 {
        let (cstart, cend) = trim_range(&cs, j, end);
        proof {
            assert(e.subrange(k + 1, e.len() as int) =~= cs@.subrange(j as int, end as int));
        }
        string_of(&cs, cstart, cend)
    } else {
        let (cstart, cend) = trim_range(&cs, 0, cs.len());
        string_of(&cs, cstart, cend)
    };
    match parse_u32(code_text.as_str()) {
        Some(code) => {
            if j > 0 {
                let out = string_of(&cs, 0, j);
                proof {
                    assert(output@.subrange(0, k + 1) =~= cs@.subrange(0, j as int));
                }
                Ok((code, out))
            } else {
                Ok((code, String::new()))
            }
        },
        None => Err(error_with_text(RemoteErrorType::ProtocolError, "Failed to get command exit code")),
    }
}

} // verus!
