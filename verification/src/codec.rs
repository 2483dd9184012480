//! The document codec: the registry's textual document format. The
//! emitter produces the canonical document for a registry; the parser
//! accepts it back, tolerating the absence of optional fields that
//! older documents may lack. Parsing an emitted document returns the
//! registry unchanged, which is proved below.
//!
//! A document lists the tools, each under its quoted key with its
//! fields indented beneath it, followed by the sync settings. String
//! values are double-quoted, with backslash escapes for the backslash,
//! the double quote and the newline.

use vstd::prelude::*;

use crate::model::Config;
use crate::model::ConfigView;
use crate::model::SyncConfig;
use crate::model::SyncView;
use crate::model::ToolConfig;
use crate::model::ToolView;
use crate::model::keys_unique;
use crate::model::tools_view;

verus! {

// ---------------------------------------------------------------
// Escaping
// ---------------------------------------------------------------
/// The escaped form of one character.
pub open spec fn esc_char(c: char) -> Seq<char> {
    if c == '\\' {
        seq!['\\', '\\']
    } else if c == '"' {
        seq!['\\', '"']
    } else if c == '\n' {
        seq!['\\', 'n']
    } else {
        seq![c]
    }
}

/// The escaped form of a string: each character escaped in turn.
pub open spec fn esc(s: Seq<char>) -> Seq<char>
    decreases s.len(),
{
    if s.len() == 0 {
        Seq::empty()
    } else {
        esc_char(s[0]) + esc(s.skip(1))
    }
}

/// A quoted scalar: the escaped string between double quotes.
pub open spec fn quoted(s: Seq<char>) -> Seq<char> {
    seq!['"'] + esc(s) + seq!['"']
}

// ---------------------------------------------------------------
// Emission
// ---------------------------------------------------------------
/// One line holding a quoted value after a fixed prefix.
pub open spec fn emit_line(pre: Seq<char>, v: Seq<char>) -> Seq<char> {
    pre + quoted(v) + seq!['\n']
}

/// A line for a present optional value; nothing for an absent one.
pub open spec fn emit_opt_line(pre: Seq<char>, v: Option<Seq<char>>) -> Seq<char> {
    match v {
        Some(s) => emit_line(pre, s),
        None => Seq::empty(),
    }
}

/// The textual form of a flag.
pub open spec fn emit_bool(b: bool) -> Seq<char> {
    if b {
        "true"@
    } else {
        "false"@
    }
}

/// A command list: one item line per command.
pub open spec fn emit_cmds(cs: Seq<Seq<char>>) -> Seq<char>
    decreases cs.len(),
{
    if cs.len() == 0 {
        Seq::empty()
    } else {
        emit_line("      - "@, cs[0]) + emit_cmds(cs.skip(1))
    }
}

/// One tool entry: the quoted key, then the tool's fields.
pub open spec fn emit_tool(key: Seq<char>, t: ToolView) -> Seq<char> {
    "  "@ + (quoted(key) + (":\n"@ + (emit_line("    name: "@, t.name) + (emit_opt_line(
        "    description: "@,
        t.description,
    ) + ("    install_commands:\n"@ + (emit_cmds(t.install_commands) + ("    remove_commands:\n"@
        + (emit_cmds(t.remove_commands) + ("    update_commands:\n"@ + (emit_cmds(
        t.update_commands,
    ) + ("    run_commands:\n"@ + (emit_cmds(t.run_commands) + ("    installed: "@ + (emit_bool(
        t.installed,
    ) + seq!['\n']))))))))))))))
}

/// All tool entries in order.
pub open spec fn emit_tools(ts: Seq<(Seq<char>, ToolView)>) -> Seq<char>
    decreases ts.len(),
{
    if ts.len() == 0 {
        Seq::empty()
    } else {
        emit_tool(ts[0].0, ts[0].1) + emit_tools(ts.skip(1))
    }
}

/// The sync settings section.
pub open spec fn emit_sync(s: SyncView) -> Seq<char> {
    emit_opt_line("  repo: "@, s.repo) + (emit_opt_line("  token: "@, s.token) + (emit_opt_line(
        "  last_sync: "@,
        s.last_sync,
    ) + ("  auto_sync: "@ + (emit_bool(s.auto_sync) + seq!['\n']))))
}

/// The whole document for a registry.
pub open spec fn emit_doc(c: ConfigView) -> Seq<char> {
    "tools:\n"@ + (emit_tools(c.tools) + ("sync:\n"@ + emit_sync(c.sync)))
}

// ---------------------------------------------------------------
// Parsing
// ---------------------------------------------------------------
/// Whether `pre` is a prefix of `s`.
pub open spec fn has_prefix(s: Seq<char>, pre: Seq<char>) -> bool {
    pre.len() <= s.len() && s.subrange(0, pre.len() as int) == pre
}

/// Consumes an exact token.
pub open spec fn p_expect(s: Seq<char>, tok: Seq<char>) -> Option<Seq<char>> {
    if has_prefix(s, tok) {
        Some(s.skip(tok.len() as int))
    } else {
        None
    }
}

/// Consumes the body of a quoted scalar up to and including the
/// closing quote, undoing the escapes.
pub open spec fn p_qbody(s: Seq<char>) -> Option<(Seq<char>, Seq<char>)>
    decreases s.len(),
{
    if s.len() == 0 {
        None
    } else if s[0] == '"' {
        Some((Seq::empty(), s.skip(1)))
    } else if s[0] == '\\' {
        if s.len() >= 2 && (s[1] == '\\' || s[1] == '"' || s[1] == 'n') {
            match p_qbody(s.skip(2)) {
                Some((t, r)) => Some(
                    (
                        seq![if s[1] == 'n' {
                            '\n'
                        } else {
                            s[1]
                        }] + t,
                        r,
                    ),
                ),
                None => None,
            }
        } else {
            None
        }
    } else if s[0] == '\n' {
        None
    } else {
        match p_qbody(s.skip(1)) {
            Some((t, r)) => Some((seq![s[0]] + t, r)),
            None => None,
        }
    }
}

/// Consumes a quoted scalar.
pub open spec fn p_qstr(s: Seq<char>) -> Option<(Seq<char>, Seq<char>)> {
    if s.len() > 0 && s[0] == '"' {
        p_qbody(s.skip(1))
    } else {
        None
    }
}

/// Consumes a full line: the prefix, a quoted scalar, a newline.
pub open spec fn p_line(s: Seq<char>, pre: Seq<char>) -> Option<(Seq<char>, Seq<char>)> {
    match p_expect(s, pre) {
        Some(r1) => match p_qstr(r1) {
            Some((v, r2)) => if r2.len() > 0 && r2[0] == '\n' {
                Some((v, r2.skip(1)))
            } else {
                None
            },
            None => None,
        },
        None => None,
    }
}

/// Consumes a line if its prefix is present; absent lines yield `None`
/// as the value.
pub open spec fn p_opt_line(s: Seq<char>, pre: Seq<char>) -> Option<
    (Option<Seq<char>>, Seq<char>),
> {
    if has_prefix(s, pre) {
        match p_line(s, pre) {
            Some((v, r)) => Some((Some(v), r)),
            None => None,
        }
    } else {
        Some((None, s))
    }
}

/// Consumes a flag line: the prefix, then `true` or `false`, then a
/// newline.
pub open spec fn p_bool_line(s: Seq<char>, pre: Seq<char>) -> Option<(bool, Seq<char>)> {
    match p_expect(s, pre) {
        Some(r) => match p_expect(r, "true\n"@) {
            Some(r2) => Some((true, r2)),
            None => match p_expect(r, "false\n"@) {
                Some(r2) => Some((false, r2)),
                None => None,
            },
        },
        None => None,
    }
}

/// Consumes consecutive command item lines.
pub open spec fn p_cmds(s: Seq<char>) -> Option<(Seq<Seq<char>>, Seq<char>)>
    decreases s.len(),
{
    if has_prefix(s, "      - "@) {
        match p_line(s, "      - "@) {
            Some((v, r)) => if r.len() < s.len() {
                match p_cmds(r) {
                    Some((vs, r2)) => Some((seq![v] + vs, r2)),
                    None => None,
                }
            } else {
                None
            },
            None => None,
        }
    } else {
        Some((Seq::empty(), s))
    }
}

/// Consumes a command list under its header if the header is present;
/// an absent header yields the empty list.
pub open spec fn p_opt_cmds(s: Seq<char>, header: Seq<char>) -> Option<
    (Seq<Seq<char>>, Seq<char>),
> {
    if has_prefix(s, header) {
        p_cmds(s.skip(header.len() as int))
    } else {
        Some((Seq::empty(), s))
    }
}

/// Consumes the installed flag line if present; an absent line means
/// not installed.
pub open spec fn p_installed(s: Seq<char>) -> Option<(bool, Seq<char>)> {
    if has_prefix(s, "    installed: "@) {
        p_bool_line(s, "    installed: "@)
    } else {
        Some((false, s))
    }
}

/// Consumes one tool entry.
pub open spec fn p_tool(s: Seq<char>) -> Option<((Seq<char>, ToolView), Seq<char>)> {
    match p_expect(s, "  "@) {
        Some(r0) => match p_qstr(r0) {
            Some((key, r1)) => match p_expect(r1, ":\n"@) {
                Some(r2) => match p_line(r2, "    name: "@) {
                    Some((name, r3)) => match p_opt_line(r3, "    description: "@) {
                        Some((description, r4)) => match p_expect(
                            r4,
                            "    install_commands:\n"@,
                        ) {
                            Some(r5) => match p_cmds(r5) {
                                Some((ic, r6)) => match p_expect(
                                    r6,
                                    "    remove_commands:\n"@,
                                ) {
                                    Some(r7) => match p_cmds(r7) {
                                        Some((rc, r8)) => match p_expect(
                                            r8,
                                            "    update_commands:\n"@,
                                        ) {
                                            Some(r9) => match p_cmds(r9) {
                                                Some((uc, r10)) => match p_opt_cmds(
                                                    r10,
                                                    "    run_commands:\n"@,
                                                ) {
                                                    Some((rn, r11)) => match p_installed(r11) {
                                                        Some((inst, r12)) => Some(
                                                            (
                                                                (
                                                                    key,
                                                                    ToolView {
                                                                        name,
                                                                        description,
                                                                        install_commands: ic,
                                                                        remove_commands: rc,
                                                                        update_commands: uc,
                                                                        run_commands: rn,
                                                                        installed: inst,
                                                                    },
                                                                ),
                                                                r12,
                                                            ),
                                                        ),
                                                        None => None,
                                                    },
                                                    None => None,
                                                },
                                                None => None,
                                            },
                                            None => None,
                                        },
                                        None => None,
                                    },
                                    None => None,
                                },
                                None => None,
                            },
                            None => None,
                        },
                        None => None,
                    },
                    None => None,
                },
                None => None,
            },
            None => None,
        },
        None => None,
    }
}

/// Consumes consecutive tool entries.
pub open spec fn p_tools(s: Seq<char>) -> Option<(Seq<(Seq<char>, ToolView)>, Seq<char>)>
    decreases s.len(),
{
    if has_prefix(s, "  \""@) {
        match p_tool(s) {
            Some((kt, r)) => if r.len() < s.len() {
                match p_tools(r) {
                    Some((ts, r2)) => Some((seq![kt] + ts, r2)),
                    None => None,
                }
            } else {
                None
            },
            None => None,
        }
    } else {
        Some((Seq::empty(), s))
    }
}

/// Consumes the sync settings section.
pub open spec fn p_sync(s: Seq<char>) -> Option<(SyncView, Seq<char>)> {
    match p_opt_line(s, "  repo: "@) {
        Some((repo, r1)) => match p_opt_line(r1, "  token: "@) {
            Some((token, r2)) => match p_opt_line(r2, "  last_sync: "@) {
                Some((last_sync, r3)) => if has_prefix(r3, "  auto_sync: "@) {
                    match p_bool_line(r3, "  auto_sync: "@) {
                        Some((auto_sync, r4)) => Some(
                            (SyncView { repo, token, last_sync, auto_sync }, r4),
                        ),
                        None => None,
                    }
                } else {
                    Some((SyncView { repo, token, last_sync, auto_sync: false }, r3))
                },
                None => None,
            },
            None => None,
        },
        None => None,
    }
}

/// Parses a whole document. The document must be fully consumed and
/// its tool keys must be unique.
pub open spec fn p_doc(s: Seq<char>) -> Option<ConfigView> {
    match p_expect(s, "tools:\n"@) {
        Some(r1) => match p_tools(r1) {
            Some((ts, r2)) => match p_expect(r2, "sync:\n"@) {
                Some(r3) => match p_sync(r3) {
                    Some((sync, r4)) => if r4.len() == 0 && keys_unique(ts) {
                        Some(ConfigView { tools: ts, sync })
                    } else {
                        None
                    },
                    None => None,
                },
                None => None,
            },
            None => None,
        },
        None => None,
    }
}



// ---------------------------------------------------------------
// Round trip: parsing an emitted construct recovers it
// ---------------------------------------------------------------
/// Concatenation is associative.
proof fn lemma_assoc(a: Seq<char>, b: Seq<char>, c: Seq<char>)
    ensures
        (a + b) + c == a + (b + c),
{
    assert((a + b) + c =~= a + (b + c));
}

/// A prefix test fails when the candidate differs at some position.
proof fn lemma_prefix_differs(s: Seq<char>, pre: Seq<char>, k: int)
    requires
        0 <= k < pre.len(),
        k < s.len(),
        s[k] != pre[k],
    ensures
        !has_prefix(s, pre),
{
    if has_prefix(s, pre) {
        assert(s.subrange(0, pre.len() as int)[k] == s[k]);
    }
}

/// Text that starts with a literal has it as a prefix.
proof fn lemma_starts_with(lit: Seq<char>, x: Seq<char>)
    ensures
        has_prefix(lit + x, lit),
{
    assert((lit + x).subrange(0, lit.len() as int) =~= lit);
}

/// Consuming a token from text that starts with it leaves the rest.
proof fn lemma_expect_prefix(tok: Seq<char>, rest: Seq<char>)
    ensures
        p_expect(tok + rest, tok) == Some(rest),
{
    let s = tok + rest;
    assert(s.subrange(0, tok.len() as int) =~= tok);
    assert(s.skip(tok.len() as int) =~= rest);
}

/// Parsing an escaped body followed by the closing quote recovers the
/// original string.
proof fn lemma_qbody_rt(v: Seq<char>, rest: Seq<char>)
    ensures
        p_qbody(esc(v) + seq!['"'] + rest) == Some((v, rest)),
    decreases v.len(),
{
    let s = esc(v) + seq!['"'] + rest;
    if v.len() == 0 {
        assert(esc(v) =~= Seq::<char>::empty());
        assert(s =~= seq!['"'] + rest);
        assert(s[0] == '"');
        assert(s.skip(1) =~= rest);
    } else {
        let c = v[0];
        let tail = v.skip(1);
        assert(esc(v) == esc_char(c) + esc(tail));
        if c == '\\' || c == '"' || c == '\n' {
            assert(esc_char(c).len() == 2);
            assert(s[0] == esc_char(c)[0]);
            assert(s[1] == esc_char(c)[1]);
            assert(s[0] == '\\');
            assert(s.skip(2) =~= esc(tail) + seq!['"'] + rest);
            lemma_qbody_rt(tail, rest);
            assert(seq![c] + tail =~= v);
        } else {
            assert(esc_char(c) =~= seq![c]);
            assert(s[0] == c);
            assert(s.skip(1) =~= esc(tail) + seq!['"'] + rest);
            lemma_qbody_rt(tail, rest);
            assert(seq![c] + tail =~= v);
        }
    }
}

/// Parsing a quoted scalar recovers the original string.
proof fn lemma_qstr_rt(v: Seq<char>, rest: Seq<char>)
    ensures
        p_qstr(quoted(v) + rest) == Some((v, rest)),
{
    let s = quoted(v) + rest;
    assert(s[0] == '"');
    assert(s.skip(1) =~= esc(v) + seq!['"'] + rest);
    lemma_qbody_rt(v, rest);
}

/// Parsing an emitted line under its prefix recovers the value.
proof fn lemma_line_rt(pre: Seq<char>, v: Seq<char>, rest: Seq<char>)
    ensures
        p_line(emit_line(pre, v) + rest, pre) == Some((v, rest)),
{
    let s = emit_line(pre, v) + rest;
    let after = quoted(v) + seq!['\n'] + rest;
    assert(s =~= pre + after);
    lemma_expect_prefix(pre, after);
    assert(after =~= quoted(v) + (seq!['\n'] + rest));
    lemma_qstr_rt(v, seq!['\n'] + rest);
    let r2 = seq!['\n'] + rest;
    assert(r2[0] == '\n');
    assert(r2.skip(1) =~= rest);
}

/// An emitted line starts with its prefix.
proof fn lemma_line_starts(pre: Seq<char>, v: Seq<char>, rest: Seq<char>)
    ensures
        has_prefix(emit_line(pre, v) + rest, pre),
{
    let s = emit_line(pre, v) + rest;
    let after = quoted(v) + seq!['\n'] + rest;
    assert(s =~= pre + after);
    lemma_starts_with(pre, after);
}

/// Parsing an emitted flag line recovers the flag.
proof fn lemma_bool_line_rt(pre: Seq<char>, b: bool, rest: Seq<char>)
    ensures
        p_bool_line(pre + (emit_bool(b) + (seq!['\n'] + rest)), pre) == Some((b, rest)),
{
    let after = emit_bool(b) + (seq!['\n'] + rest);
    lemma_expect_prefix(pre, after);
    reveal_strlit("true");
    reveal_strlit("false");
    reveal_strlit("true\n");
    reveal_strlit("false\n");
    if b {
        assert(after =~= "true\n"@ + rest);
        lemma_expect_prefix("true\n"@, rest);
    } else {
        assert(after =~= "false\n"@ + rest);
        assert(after[0] == 'f');
        lemma_prefix_differs(after, "true\n"@, 0);
        lemma_expect_prefix("false\n"@, rest);
    }
}

/// Parsing an emitted command list recovers the commands, as long as
/// what follows does not itself look like a command item.
proof fn lemma_cmds_rt(cs: Seq<Seq<char>>, rest: Seq<char>)
    requires
        !has_prefix(rest, "      - "@),
    ensures
        p_cmds(emit_cmds(cs) + rest) == Some((cs, rest)),
    decreases cs.len(),
{
    let s = emit_cmds(cs) + rest;
    if cs.len() == 0 {
        assert(s =~= rest);
        assert(cs =~= Seq::<Seq<char>>::empty());
    } else {
        let tail = cs.skip(1);
        let after = emit_cmds(tail) + rest;
        lemma_assoc(emit_line("      - "@, cs[0]), emit_cmds(tail), rest);
        lemma_line_starts("      - "@, cs[0], after);
        lemma_line_rt("      - "@, cs[0], after);
        assert(emit_line("      - "@, cs[0]).len() > 0);
        lemma_cmds_rt(tail, rest);
        assert(seq![cs[0]] + tail =~= cs);
    }
}

/// Parsing an emitted tool entry recovers the key and the tool.
#[verifier::rlimit(100)]
proof fn lemma_tool_rt(key: Seq<char>, t: ToolView, rest: Seq<char>)
    ensures
        p_tool(emit_tool(key, t) + rest) == Some(((key, t), rest)),
{
    reveal_strlit("    description: ");
    reveal_strlit("    install_commands:\n");
    reveal_strlit("    remove_commands:\n");
    reveal_strlit("    update_commands:\n");
    reveal_strlit("    run_commands:\n");
    reveal_strlit("    installed: ");
    reveal_strlit("      - ");
    let u13 = emit_bool(t.installed) + seq!['\n'];
    let u12 = "    installed: "@ + u13;
    let u11 = emit_cmds(t.run_commands) + u12;
    let u10 = "    run_commands:\n"@ + u11;
    let u9 = emit_cmds(t.update_commands) + u10;
    let u8 = "    update_commands:\n"@ + u9;
    let u7 = emit_cmds(t.remove_commands) + u8;
    let u6 = "    remove_commands:\n"@ + u7;
    let u5 = emit_cmds(t.install_commands) + u6;
    let u4 = "    install_commands:\n"@ + u5;
    let u3 = emit_opt_line("    description: "@, t.description) + u4;
    let u2 = emit_line("    name: "@, t.name) + u3;
    let u1 = ":\n"@ + u2;
    let u0 = quoted(key) + u1;
    assert(emit_tool(key, t) == "  "@ + u0) by {
        lemma_assoc(emit_bool(t.installed), seq!['\n'], Seq::<char>::empty());
    }
    lemma_assoc("  "@, u0, rest);
    lemma_expect_prefix("  "@, u0 + rest);
    lemma_assoc(quoted(key), u1, rest);
    lemma_qstr_rt(key, u1 + rest);
    lemma_assoc(":\n"@, u2, rest);
    lemma_expect_prefix(":\n"@, u2 + rest);
    lemma_assoc(emit_line("    name: "@, t.name), u3, rest);
    lemma_line_rt("    name: "@, t.name, u3 + rest);
    lemma_assoc(emit_opt_line("    description: "@, t.description), u4, rest);
    lemma_assoc("    install_commands:\n"@, u5, rest);
    match t.description {
        Some(d) => {
            lemma_line_starts("    description: "@, d, u4 + rest);
            lemma_line_rt("    description: "@, d, u4 + rest);
        },
        None => {
            assert((u4 + rest)[4] == 'i');
            assert("    description: "@[4] == 'd');
            lemma_prefix_differs(u4 + rest, "    description: "@, 4);
        },
    }
    lemma_expect_prefix("    install_commands:\n"@, u5 + rest);
    lemma_assoc(emit_cmds(t.install_commands), u6, rest);
    lemma_assoc("    remove_commands:\n"@, u7, rest);
    assert((u6 + rest)[4] == 'r');
    assert("      - "@[4] == ' ');
    lemma_prefix_differs(u6 + rest, "      - "@, 4);
    lemma_cmds_rt(t.install_commands, u6 + rest);
    lemma_expect_prefix("    remove_commands:\n"@, u7 + rest);
    lemma_assoc(emit_cmds(t.remove_commands), u8, rest);
    lemma_assoc("    update_commands:\n"@, u9, rest);
    assert((u8 + rest)[4] == 'u');
    lemma_prefix_differs(u8 + rest, "      - "@, 4);
    lemma_cmds_rt(t.remove_commands, u8 + rest);
    lemma_expect_prefix("    update_commands:\n"@, u9 + rest);
    lemma_assoc(emit_cmds(t.update_commands), u10, rest);
    lemma_assoc("    run_commands:\n"@, u11, rest);
    assert((u10 + rest)[4] == 'r');
    lemma_prefix_differs(u10 + rest, "      - "@, 4);
    lemma_cmds_rt(t.update_commands, u10 + rest);
    lemma_starts_with("    run_commands:\n"@, u11 + rest);
    assert((u10 + rest).skip("    run_commands:\n"@.len() as int) =~= u11 + rest);
    lemma_assoc(emit_cmds(t.run_commands), u12, rest);
    lemma_assoc("    installed: "@, u13, rest);
    assert((u12 + rest)[4] == 'i');
    lemma_prefix_differs(u12 + rest, "      - "@, 4);
    lemma_cmds_rt(t.run_commands, u12 + rest);
    lemma_starts_with("    installed: "@, u13 + rest);
    lemma_assoc(emit_bool(t.installed), seq!['\n'], rest);
    lemma_bool_line_rt("    installed: "@, t.installed, rest);
    match p_tool(emit_tool(key, t) + rest) {
        Some((kt, r)) => {
            assert(kt.1 =~= t);
        },
        None => {},
    }
}

/// An emitted tool entry starts like one: two spaces and a quote.
proof fn lemma_tool_starts(key: Seq<char>, t: ToolView, x: Seq<char>)
    ensures
        has_prefix(emit_tool(key, t) + x, "  \""@),
{
    reveal_strlit("  ");
    reveal_strlit("  \"");
    let s = emit_tool(key, t) + x;
    assert(s[0] == ' ');
    assert(s[1] == ' ');
    assert(s[2] == quoted(key)[0]);
    assert(s.subrange(0, 3) =~= "  \""@);
}

/// Parsing emitted tool entries recovers them, as long as what follows
/// does not itself look like the start of an entry.
#[verifier::rlimit(100)]
proof fn lemma_tools_rt(ts: Seq<(Seq<char>, ToolView)>, rest: Seq<char>)
    requires
        !has_prefix(rest, "  \""@),
    ensures
        p_tools(emit_tools(ts) + rest) == Some((ts, rest)),
    decreases ts.len(),
{
    let s = emit_tools(ts) + rest;
    if ts.len() == 0 {
        assert(s =~= rest);
        assert(ts =~= Seq::<(Seq<char>, ToolView)>::empty());
    } else {
        let tail = ts.skip(1);
        let after = emit_tools(tail) + rest;
        lemma_assoc(emit_tool(ts[0].0, ts[0].1), emit_tools(tail), rest);
        lemma_tool_starts(ts[0].0, ts[0].1, after);
        lemma_tool_rt(ts[0].0, ts[0].1, after);
        assert(emit_tool(ts[0].0, ts[0].1).len() > 0) by {
            reveal_strlit("  ");
        }
        lemma_tools_rt(tail, rest);
        assert(seq![ts[0]] + tail =~= ts);
    }
}

/// Parsing an emitted sync section recovers the settings.
#[verifier::rlimit(100)]
proof fn lemma_sync_rt(sv: SyncView, rest: Seq<char>)
    ensures
        p_sync(emit_sync(sv) + rest) == Some((sv, rest)),
{
    reveal_strlit("  repo: ");
    reveal_strlit("  token: ");
    reveal_strlit("  last_sync: ");
    reveal_strlit("  auto_sync: ");
    let w4 = emit_bool(sv.auto_sync) + seq!['\n'];
    let w3 = "  auto_sync: "@ + w4;
    let w2 = emit_opt_line("  last_sync: "@, sv.last_sync) + w3;
    let w1 = emit_opt_line("  token: "@, sv.token) + w2;
    lemma_assoc(emit_opt_line("  repo: "@, sv.repo), w1, rest);
    lemma_assoc(emit_opt_line("  token: "@, sv.token), w2, rest);
    lemma_assoc(emit_opt_line("  last_sync: "@, sv.last_sync), w3, rest);
    lemma_assoc("  auto_sync: "@, w4, rest);
    lemma_assoc(emit_bool(sv.auto_sync), seq!['\n'], rest);
    assert((w3 + rest)[2] == 'a');
    match sv.repo {
        Some(v) => {
            lemma_line_starts("  repo: "@, v, w1 + rest);
            lemma_line_rt("  repo: "@, v, w1 + rest);
        },
        None => {
            match sv.token {
                Some(v2) => {
                    lemma_line_starts("  token: "@, v2, w2 + rest);
                    assert((w1 + rest)[2] == 't');
                },
                None => {
                    match sv.last_sync {
                        Some(v3) => {
                            lemma_line_starts("  last_sync: "@, v3, w3 + rest);
                            assert((w2 + rest)[2] == 'l');
                        },
                        None => {
                            assert((w2 + rest) =~= (w3 + rest));
                        },
                    }
                    assert((w1 + rest) =~= (w2 + rest));
                },
            }
            assert((w1 + rest)[2] != 'r');
            lemma_prefix_differs(w1 + rest, "  repo: "@, 2);
        },
    }
    match sv.token {
        Some(v) => {
            lemma_line_starts("  token: "@, v, w2 + rest);
            lemma_line_rt("  token: "@, v, w2 + rest);
        },
        None => {
            match sv.last_sync {
                Some(v3) => {
                    lemma_line_starts("  last_sync: "@, v3, w3 + rest);
                    assert((w2 + rest)[2] == 'l');
                },
                None => {
                    assert((w2 + rest) =~= (w3 + rest));
                },
            }
            assert((w2 + rest)[2] != 't');
            lemma_prefix_differs(w2 + rest, "  token: "@, 2);
        },
    }
    match sv.last_sync {
        Some(v) => {
            lemma_line_starts("  last_sync: "@, v, w3 + rest);
            lemma_line_rt("  last_sync: "@, v, w3 + rest);
        },
        None => {
            lemma_prefix_differs(w3 + rest, "  last_sync: "@, 2);
        },
    }
    lemma_starts_with("  auto_sync: "@, w4 + rest);
    lemma_bool_line_rt("  auto_sync: "@, sv.auto_sync, rest);
    match p_sync(emit_sync(sv) + rest) {
        Some((got, r)) => {
            assert(got =~= sv);
        },
        None => {},
    }
}

/// The round trip: parsing the emitted document of a registry with
/// unique keys yields the registry itself.
#[verifier::rlimit(100)]
pub proof fn lemma_document_round_trip(c: ConfigView)
    requires
        keys_unique(c.tools),
    ensures
        p_doc(emit_doc(c)) == Some(c),
{
    reveal_strlit("sync:\n");
    reveal_strlit("  \"");
    let r2 = "sync:\n"@ + emit_sync(c.sync);
    let r1 = emit_tools(c.tools) + r2;
    lemma_expect_prefix("tools:\n"@, r1);
    assert(r2[0] == 's');
    lemma_prefix_differs(r2, "  \""@, 0);
    lemma_tools_rt(c.tools, r2);
    lemma_expect_prefix("sync:\n"@, emit_sync(c.sync));
    assert(emit_sync(c.sync) =~= emit_sync(c.sync) + Seq::<char>::empty());
    lemma_sync_rt(c.sync, Seq::<char>::empty());
    match p_doc(emit_doc(c)) {
        Some(got) => {
            assert(got =~= c);
        },
        None => {},
    }
}


// ---------------------------------------------------------------
// Executable emission
// ---------------------------------------------------------------
/// Escaping a string extended by one character appends that
/// character's escape.
proof fn lemma_esc_push(a: Seq<char>, c: char)
    ensures
        esc(a.push(c)) == esc(a) + esc_char(c),
    decreases a.len(),
{
    if a.len() == 0 {
        assert(a.push(c)[0] == c);
        assert(a.push(c).skip(1) =~= a);
        assert(esc(a.push(c)) =~= esc(a) + esc_char(c));
    } else {
        assert(a.push(c)[0] == a[0]);
        assert(a.push(c).skip(1) =~= a.skip(1).push(c));
        lemma_esc_push(a.skip(1), c);
        assert(esc_char(a[0]) + (esc(a.skip(1)) + esc_char(c)) =~= (esc_char(a[0]) + esc(
            a.skip(1),
        )) + esc_char(c));
    }
}

/// Appends the characters of a string slice.
fn push_lit(out: &mut Vec<char>, s: &str)
    ensures
        final(out)@ == old(out)@ + s@,
{
    let n = s.unicode_len();
    let mut i: usize = 0;
    while i < n
        invariant
            i <= n,
            n == s@.len(),
            out@ == old(out)@ + s@.subrange(0, i as int),
        decreases n - i,
    {
        let c = s.get_char(i);
        out.push(c);
        proof {
            assert(s@.subrange(0, i + 1) =~= s@.subrange(0, i as int).push(s@[i as int]));
            assert(out@ =~= old(out)@ + s@.subrange(0, i + 1));
        }
        i += 1;
    }
    proof {
        assert(s@.subrange(0, n as int) =~= s@);
    }
}

/// Appends a quoted scalar.
fn push_quoted(out: &mut Vec<char>, s: &str)
    ensures
        final(out)@ == old(out)@ + quoted(s@),
{
    out.push('"');
    let n = s.unicode_len();
    let mut i: usize = 0;
    while i < n
        invariant
            i <= n,
            n == s@.len(),
            out@ == old(out)@ + seq!['"'] + esc(s@.subrange(0, i as int)),
        decreases n - i,
    {
        let c = s.get_char(i);
        if c == '\\' {
            out.push('\\');
            out.push('\\');
        } else if c == '"' {
            out.push('\\');
            out.push('"');
        } else if c == '\n' {
            out.push('\\');
            out.push('n');
        } else {
            out.push(c);
        }
        proof {
            assert(s@.subrange(0, i + 1) =~= s@.subrange(0, i as int).push(s@[i as int]));
            lemma_esc_push(s@.subrange(0, i as int), s@[i as int]);
            assert(out@ =~= old(out)@ + seq!['"'] + esc(s@.subrange(0, i + 1)));
        }
        i += 1;
    }
    out.push('"');
    proof {
        assert(s@.subrange(0, n as int) =~= s@);
        assert(out@ =~= old(out)@ + quoted(s@));
    }
}

/// Appends one line: prefix, quoted value, newline.
fn push_line(out: &mut Vec<char>, pre: &str, v: &str)
    ensures
        final(out)@ == old(out)@ + emit_line(pre@, v@),
{
    push_lit(out, pre);
    push_quoted(out, v);
    out.push('\n');
    proof {
        assert(out@ =~= old(out)@ + emit_line(pre@, v@));
    }
}

/// Appends the command item lines from position `from` on.
fn push_cmds_from(out: &mut Vec<char>, cs: &Vec<String>, from: usize)
    requires
        from <= cs@.len(),
    ensures
        final(out)@ == old(out)@ + emit_cmds(cs.deep_view().skip(from as int)),
    decreases cs@.len() - from,
{
    if from < cs.len() {
        let ghost d = cs.deep_view();
        proof {
            assert(d.skip(from as int)[0] == d[from as int]);
            assert(d.skip(from as int).skip(1) =~= d.skip(from + 1));
            assert(d[from as int] == cs@[from as int]@);
        }
        push_line(out, "      - ", cs[from].as_str());
        push_cmds_from(out, cs, from + 1);
        proof {
            assert(out@ =~= old(out)@ + emit_cmds(d.skip(from as int)));
        }
    } else {
        proof {
            assert(cs.deep_view().skip(from as int) =~= Seq::<Seq<char>>::empty());
            assert(out@ =~= old(out)@ + emit_cmds(cs.deep_view().skip(from as int)));
        }
    }
}

/// Appends a whole command list.
fn push_cmds(out: &mut Vec<char>, cs: &Vec<String>)
    ensures
        final(out)@ == old(out)@ + emit_cmds(cs.deep_view()),
{
    push_cmds_from(out, cs, 0);
    proof {
        assert(cs.deep_view().skip(0) =~= cs.deep_view());
    }
}

/// Appends the flag text.
fn push_bool(out: &mut Vec<char>, b: bool)
    ensures
        final(out)@ == old(out)@ + emit_bool(b),
{
    if b {
        push_lit(out, "true");
    } else {
        push_lit(out, "false");
    }
}

/// Appends one tool entry.
#[verifier::rlimit(100)]
fn push_tool(out: &mut Vec<char>, key: &String, t: &ToolConfig)
    ensures
        final(out)@ == old(out)@ + emit_tool(key@, t@),
{
    push_lit(out, "  ");
    push_quoted(out, key.as_str());
    push_lit(out, ":\n");
    push_line(out, "    name: ", t.name.as_str());
    match &t.description {
        Some(d) => {
            push_line(out, "    description: ", d.as_str());
        },
        None => {
            proof {
                assert(out@ =~= out@ + emit_opt_line("    description: "@, t@.description));
            }
        },
    }
    push_lit(out, "    install_commands:\n");
    push_cmds(out, &t.install_commands);
    push_lit(out, "    remove_commands:\n");
    push_cmds(out, &t.remove_commands);
    push_lit(out, "    update_commands:\n");
    push_cmds(out, &t.update_commands);
    push_lit(out, "    run_commands:\n");
    push_cmds(out, &t.run_commands);
    push_lit(out, "    installed: ");
    push_bool(out, t.installed);
    out.push('\n');
    proof {
        let g0 = old(out)@;
        let p1: Seq<char> = "  "@;
        let p2 = quoted(key@);
        let p3: Seq<char> = ":\n"@;
        let p4 = emit_line("    name: "@, t@.name);
        let p5 = emit_opt_line("    description: "@, t@.description);
        let p6: Seq<char> = "    install_commands:\n"@;
        let p7 = emit_cmds(t@.install_commands);
        let p8: Seq<char> = "    remove_commands:\n"@;
        let p9 = emit_cmds(t@.remove_commands);
        let p10: Seq<char> = "    update_commands:\n"@;
        let p11 = emit_cmds(t@.update_commands);
        let p12: Seq<char> = "    run_commands:\n"@;
        let p13 = emit_cmds(t@.run_commands);
        let p14: Seq<char> = "    installed: "@;
        let p15 = emit_bool(t@.installed);
        let p16 = seq!['\n'];
        let l1 = g0 + p1;
        let l2 = l1 + p2;
        let l3 = l2 + p3;
        let l4 = l3 + p4;
        let l5 = l4 + p5;
        let l6 = l5 + p6;
        let l7 = l6 + p7;
        let l8 = l7 + p8;
        let l9 = l8 + p9;
        let l10 = l9 + p10;
        let l11 = l10 + p11;
        let l12 = l11 + p12;
        let l13 = l12 + p13;
        let l14 = l13 + p14;
        let l15 = l14 + p15;
        assert(out@ == l15 + p16);
        let t16 = p16;
        let t15 = p15 + t16;
        let t14 = p14 + t15;
        let t13 = p13 + t14;
        let t12 = p12 + t13;
        let t11 = p11 + t12;
        let t10 = p10 + t11;
        let t9 = p9 + t10;
        let t8 = p8 + t9;
        let t7 = p7 + t8;
        let t6 = p6 + t7;
        let t5 = p5 + t6;
        let t4 = p4 + t5;
        let t3 = p3 + t4;
        let t2 = p2 + t3;
        let t1 = p1 + t2;
        assert(emit_tool(key@, t@) == t1);
        lemma_assoc(l14, p15, t16);
        lemma_assoc(l13, p14, t15);
        lemma_assoc(l12, p13, t14);
        lemma_assoc(l11, p12, t13);
        lemma_assoc(l10, p11, t12);
        lemma_assoc(l9, p10, t11);
        lemma_assoc(l8, p9, t10);
        lemma_assoc(l7, p8, t9);
        lemma_assoc(l6, p7, t8);
        lemma_assoc(l5, p6, t7);
        lemma_assoc(l4, p5, t6);
        lemma_assoc(l3, p4, t5);
        lemma_assoc(l2, p3, t4);
        lemma_assoc(l1, p2, t3);
        lemma_assoc(g0, p1, t2);
        assert(out@ == g0 + emit_tool(key@, t@));
    }
}

/// Appends the tool entries of a registry from position `from` on.
fn push_tools_from(out: &mut Vec<char>, c: &Config, from: usize)
    requires
        from <= c@.tools.len(),
    ensures
        final(out)@ == old(out)@ + emit_tools(c@.tools.skip(from as int)),
    decreases c@.tools.len() - from,
{
    if from < c.tool_count() {
        proof {
            assert(c@.tools.skip(from as int)[0] == c@.tools[from as int]);
            assert(c@.tools.skip(from as int).skip(1) =~= c@.tools.skip(from + 1));
        }
        push_tool(out, c.key_at(from), c.tool_at(from));
        push_tools_from(out, c, from + 1);
        proof {
            assert(out@ =~= old(out)@ + emit_tools(c@.tools.skip(from as int)));
        }
    } else {
        proof {
            assert(c@.tools.skip(from as int) =~= Seq::<(Seq<char>, ToolView)>::empty());
            assert(out@ =~= old(out)@ + emit_tools(c@.tools.skip(from as int)));
        }
    }
}

/// Appends the sync settings section.
#[verifier::rlimit(100)]
fn push_sync(out: &mut Vec<char>, s: &SyncConfig)
    ensures
        final(out)@ == old(out)@ + emit_sync(s@),
{
    match &s.repo {
        Some(v) => push_line(out, "  repo: ", v.as_str()),
        None => {},
    }
    match &s.token {
        Some(v) => push_line(out, "  token: ", v.as_str()),
        None => {},
    }
    match &s.last_sync {
        Some(v) => push_line(out, "  last_sync: ", v.as_str()),
        None => {},
    }
    push_lit(out, "  auto_sync: ");
    push_bool(out, s.auto_sync);
    out.push('\n');
    proof {
        assert(out@ =~= old(out)@ + emit_sync(s@));
    }
}

/// Collects characters into a string.
///
/// Relies on `String: FromIterator<char>`: collecting characters
/// yields the string made of exactly those characters, in order.
#[verifier::external_body]
pub(crate) fn chars_to_string(v: &Vec<char>) -> (r: String)
    ensures
        r@ == v@,
{
    v.iter().collect()
}

impl Config {
    /// The canonical document for this registry.
    pub fn to_document(&self) -> (r: String)
        ensures
            r@ == emit_doc(self@),
    {
        let mut out: Vec<char> = Vec::new();
        push_lit(&mut out, "tools:\n");
        push_tools_from(&mut out, self, 0);
        push_lit(&mut out, "sync:\n");
        push_sync(&mut out, &self.sync);
        proof {
            assert(self@.tools.skip(0) =~= self@.tools);
            assert(out@ =~= emit_doc(self@));
        }
        chars_to_string(&out)
    }
}


// ---------------------------------------------------------------
// Executable parsing
// ---------------------------------------------------------------
/// Skipping twice skips the sum.
proof fn lemma_skip_skip(s: Seq<char>, i: int, k: int)
    requires
        0 <= i,
        0 <= k,
        i + k <= s.len(),
    ensures
        s.skip(i).skip(k) == s.skip(i + k),
{
    assert(s.skip(i).skip(k) =~= s.skip(i + k));
}

/// The characters of a string slice, in order.
fn string_to_chars(s: &str) -> (r: Vec<char>)
    ensures
        r@ == s@,
{
    let n = s.unicode_len();
    let mut r: Vec<char> = Vec::new();
    let mut i: usize = 0;
    while i < n
        invariant
            i <= n,
            n == s@.len(),
            r@ =~= s@.subrange(0, i as int),
        decreases n - i,
    {
        r.push(s.get_char(i));
        proof {
            assert(s@.subrange(0, i + 1) =~= s@.subrange(0, i as int).push(s@[i as int]));
        }
        i += 1;
    }
    proof {
        assert(s@.subrange(0, n as int) =~= s@);
    }
    r
}

/// Consumes an exact token at position `i`.
fn ex_expect(v: &Vec<char>, i: usize, tok: &str) -> (r: Option<usize>)
    requires
        i <= v@.len(),
    ensures
        match r {
            Some(j) => i <= j <= v@.len() && p_expect(v@.skip(i as int), tok@) == Some(
                v@.skip(j as int),
            ) && j - i == tok@.len(),
            None => p_expect(v@.skip(i as int), tok@) is None,
        },
{
    let tl = tok.unicode_len();
    if tl > v.len() - i {
        proof {
            assert(v@.skip(i as int).len() < tok@.len());
        }
        return None;
    }
    let n = v.len();
    let mut k: usize = 0;
    while k < tl
        invariant
            k <= tl,
            tl == tok@.len(),
            n == v@.len(),
            i + tl <= n,
            forall|m: int| 0 <= m < k ==> v@[i + m] == tok@[m],
        decreases tl - k,
    {
        if v[i + k] != tok.get_char(k) {
            proof {
                assert(v@.skip(i as int)[k as int] == v@[i + k]);
                lemma_prefix_differs(v@.skip(i as int), tok@, k as int);
            }
            return None;
        }
        k += 1;
    }
    proof {
        assert(v@.skip(i as int).subrange(0, tl as int) =~= tok@);
        assert(v@.skip(i as int).skip(tl as int) =~= v@.skip(i + tl));
    }
    Some(i + tl)
}

/// Consumes a quoted-scalar body from position `i`.
fn ex_qbody(v: &Vec<char>, i: usize) -> (r: Option<(Vec<char>, usize)>)
    requires
        i <= v@.len(),
    ensures
        match p_qbody(v@.skip(i as int)) {
            Some(p) => (r matches Some(q) && q.0@ == p.0 && i < q.1 <= v@.len() && v@.skip(
                q.1 as int,
            ) == p.1),
            None => r is None,
        },
    decreases v@.len() - i,
{
    proof {
        assert(v@.skip(i as int).len() == v@.len() - i);
    }
    if i >= v.len() {
        return None;
    }
    let c = v[i];
    proof {
        assert(v@.skip(i as int)[0] == c);
    }
    if c == '"' {
        proof {
            lemma_skip_skip(v@, i as int, 1);
        }
        Some((Vec::new(), i + 1))
    } else if c == '\\' {
        if i + 1 < v.len() {
            let c2 = v[i + 1];
            proof {
                assert(v@.skip(i as int)[1] == c2);
            }
            if c2 == '\\' || c2 == '"' || c2 == 'n' {
                let d = if c2 == 'n' {
                    '\n'
                } else {
                    c2
                };
                proof {
                    lemma_skip_skip(v@, i as int, 2);
                }
                match ex_qbody(v, i + 2) {
                    Some((mut t, j)) => {
                        let ghost t0 = t@;
                        t.insert(0, d);
                        proof {
                            assert(t@ =~= seq![d] + t0);
                        }
                        Some((t, j))
                    },
                    None => None,
                }
            } else {
                None
            }
        } else {
            None
        }
    } else if c == '\n' {
        None
    } else {
        proof {
            lemma_skip_skip(v@, i as int, 1);
        }
        match ex_qbody(v, i + 1) {
            Some((mut t, j)) => {
                let ghost t0 = t@;
                t.insert(0, c);
                proof {
                    assert(t@ =~= seq![c] + t0);
                }
                Some((t, j))
            },
            None => None,
        }
    }
}

/// Consumes a quoted scalar from position `i`.
fn ex_qstr(v: &Vec<char>, i: usize) -> (r: Option<(Vec<char>, usize)>)
    requires
        i <= v@.len(),
    ensures
        match p_qstr(v@.skip(i as int)) {
            Some(p) => (r matches Some(q) && q.0@ == p.0 && i < q.1 <= v@.len() && v@.skip(
                q.1 as int,
            ) == p.1),
            None => r is None,
        },
{
    proof {
        assert(v@.skip(i as int).len() == v@.len() - i);
    }
    if i < v.len() {
        let c = v[i];
        proof {
            assert(v@.skip(i as int)[0] == c);
        }
        if c == '"' {
            proof {
                lemma_skip_skip(v@, i as int, 1);
            }
            ex_qbody(v, i + 1)
        } else {
            None
        }
    } else {
        None
    }
}

/// Consumes a prefixed, quoted, newline-terminated line.
fn ex_line(v: &Vec<char>, i: usize, pre: &str) -> (r: Option<(String, usize)>)
    requires
        i <= v@.len(),
    ensures
        match p_line(v@.skip(i as int), pre@) {
            Some(p) => (r matches Some(q) && q.0@ == p.0 && i < q.1 <= v@.len() && v@.skip(
                q.1 as int,
            ) == p.1),
            None => r is None,
        },
{
    match ex_expect(v, i, pre) {
        Some(j) => match ex_qstr(v, j) {
            Some((t, j2)) => {
                proof {
                    assert(v@.skip(j2 as int).len() == v@.len() - j2);
                }
                if j2 < v.len() && v[j2] == '\n' {
                    proof {
                        assert(v@.skip(j2 as int)[0] == v@[j2 as int]);
                        lemma_skip_skip(v@, j2 as int, 1);
                    }
                    Some((chars_to_string(&t), j2 + 1))
                } else {
                    proof {
                        if j2 < v@.len() {
                            assert(v@.skip(j2 as int)[0] == v@[j2 as int]);
                        }
                    }
                    None
                }
            },
            None => None,
        },
        None => None,
    }
}

/// Consumes a prefixed flag line.
fn ex_bool_line(v: &Vec<char>, i: usize, pre: &str) -> (r: Option<(bool, usize)>)
    requires
        i <= v@.len(),
    ensures
        match p_bool_line(v@.skip(i as int), pre@) {
            Some(p) => (r matches Some(q) && q.0 == p.0 && i <= q.1 <= v@.len() && v@.skip(
                q.1 as int,
            ) == p.1),
            None => r is None,
        },
{
    match ex_expect(v, i, pre) {
        Some(j) => match ex_expect(v, j, "true\n") {
            Some(j2) => Some((true, j2)),
            None => match ex_expect(v, j, "false\n") {
                Some(j2) => Some((false, j2)),
                None => None,
            },
        },
        None => None,
    }
}

/// Consumes a line whose prefix may be absent.
fn ex_opt_line(v: &Vec<char>, i: usize, pre: &str) -> (r: Option<(Option<String>, usize)>)
    requires
        i <= v@.len(),
    ensures
        match p_opt_line(v@.skip(i as int), pre@) {
            Some(p) => (r matches Some(q) && q.0.deep_view() == p.0 && i <= q.1 <= v@.len()
                && v@.skip(q.1 as int) == p.1),
            None => r is None,
        },
{
    match ex_expect(v, i, pre) {
        Some(_) => match ex_line(v, i, pre) {
            Some((t, j)) => Some((Some(t), j)),
            None => None,
        },
        None => Some((None, i)),
    }
}

/// Consumes consecutive command item lines.
fn ex_cmds(v: &Vec<char>, i: usize) -> (r: Option<(Vec<String>, usize)>)
    requires
        i <= v@.len(),
    ensures
        match p_cmds(v@.skip(i as int)) {
            Some(p) => (r matches Some(q) && q.0.deep_view() == p.0 && i <= q.1 <= v@.len()
                && v@.skip(q.1 as int) == p.1),
            None => r is None,
        },
    decreases v@.len() - i,
{
    proof {
        assert(v@.skip(i as int).len() == v@.len() - i);
    }
    match ex_expect(v, i, "      - ") {
        Some(_) => match ex_line(v, i, "      - ") {
            Some((t, j)) => {
                proof {
                    assert(v@.skip(j as int).len() == v@.len() - j);
                }
                match ex_cmds(v, j) {
                    Some((mut ts, j2)) => {
                        let ghost t0 = ts@;
                        let ghost dv0 = ts.deep_view();
                        let ghost tv = t@;
                        ts.insert(0, t);
                        proof {
                            assert forall|k: int|
                                0 <= k < ts.deep_view().len() implies #[trigger] ts.deep_view()[k]
                                == (seq![tv] + dv0)[k] by {
                                if k == 0 {
                                    assert(ts@[0] == t);
                                } else {
                                    assert(ts@[k] == t0[k - 1]);
                                    assert(dv0[k - 1] == t0[k - 1]@);
                                }
                            }
                            assert(ts.deep_view() =~= seq![tv] + dv0);
                        }
                        Some((ts, j2))
                    },
                    None => None,
                }
            },
            None => None,
        },
        None => Some((Vec::new(), i)),
    }
}


/// Consumes a command list under its header if the header is present.
fn ex_opt_cmds(v: &Vec<char>, i: usize, header: &str) -> (r: Option<(Vec<String>, usize)>)
    requires
        i <= v@.len(),
    ensures
        match p_opt_cmds(v@.skip(i as int), header@) {
            Some(p) => (r matches Some(q) && q.0.deep_view() == p.0 && i <= q.1 <= v@.len()
                && v@.skip(q.1 as int) == p.1),
            None => r is None,
        },
{
    match ex_expect(v, i, header) {
        Some(j) => {
            proof {
                assert(v@.skip(i as int).skip(header@.len() as int) == v@.skip(j as int));
            }
            ex_cmds(v, j)
        },
        None => Some((Vec::new(), i)),
    }
}

/// Consumes the installed flag line if present.
fn ex_installed(v: &Vec<char>, i: usize) -> (r: Option<(bool, usize)>)
    requires
        i <= v@.len(),
    ensures
        match p_installed(v@.skip(i as int)) {
            Some(p) => (r matches Some(q) && q.0 == p.0 && i <= q.1 <= v@.len() && v@.skip(
                q.1 as int,
            ) == p.1),
            None => r is None,
        },
{
    match ex_expect(v, i, "    installed: ") {
        Some(_) => ex_bool_line(v, i, "    installed: "),
        None => Some((false, i)),
    }
}

/// Consumes one tool entry.
#[verifier::rlimit(100)]
fn ex_tool(v: &Vec<char>, i: usize) -> (r: Option<((String, ToolConfig), usize)>)
    requires
        i <= v@.len(),
    ensures
        match p_tool(v@.skip(i as int)) {
            Some(p) => (r matches Some(q) && q.0.0@ == p.0.0 && q.0.1@ == p.0.1 && i < q.1
                <= v@.len() && v@.skip(q.1 as int) == p.1),
            None => r is None,
        },
{
    let j0 = match ex_expect(v, i, "  ") {
        Some(j) => j,
        None => {
            return None;
        },
    };
    let (key_chars, j1) = match ex_qstr(v, j0) {
        Some(p) => p,
        None => {
            return None;
        },
    };
    let j2 = match ex_expect(v, j1, ":\n") {
        Some(j) => j,
        None => {
            return None;
        },
    };
    let (name, j3) = match ex_line(v, j2, "    name: ") {
        Some(p) => p,
        None => {
            return None;
        },
    };
    let (description, j4) = match ex_opt_line(v, j3, "    description: ") {
        Some(p) => p,
        None => {
            return None;
        },
    };
    let j5 = match ex_expect(v, j4, "    install_commands:\n") {
        Some(j) => j,
        None => {
            return None;
        },
    };
    let (ic, j6) = match ex_cmds(v, j5) {
        Some(p) => p,
        None => {
            return None;
        },
    };
    let j7 = match ex_expect(v, j6, "    remove_commands:\n") {
        Some(j) => j,
        None => {
            return None;
        },
    };
    let (rc, j8) = match ex_cmds(v, j7) {
        Some(p) => p,
        None => {
            return None;
        },
    };
    let j9 = match ex_expect(v, j8, "    update_commands:\n") {
        Some(j) => j,
        None => {
            return None;
        },
    };
    let (uc, j10) = match ex_cmds(v, j9) {
        Some(p) => p,
        None => {
            return None;
        },
    };
    let (rn, j11) = match ex_opt_cmds(v, j10, "    run_commands:\n") {
        Some(p) => p,
        None => {
            return None;
        },
    };
    let (inst, j12) = match ex_installed(v, j11) {
        Some(p) => p,
        None => {
            return None;
        },
    };
    let key = chars_to_string(&key_chars);
    let tool = ToolConfig {
        name,
        description,
        install_commands: ic,
        remove_commands: rc,
        update_commands: uc,
        run_commands: rn,
        installed: inst,
    };
    proof {
        match p_tool(v@.skip(i as int)) {
            Some(p) => {
                assert(tool@ =~= p.0.1);
            },
            None => {},
        }
    }
    Some(((key, tool), j12))
}

/// Consumes consecutive tool entries.
fn ex_tools(v: &Vec<char>, i: usize) -> (r: Option<(Vec<(String, ToolConfig)>, usize)>)
    requires
        i <= v@.len(),
    ensures
        match p_tools(v@.skip(i as int)) {
            Some(p) => (r matches Some(q) && tools_view(q.0@) == p.0 && i <= q.1 <= v@.len()
                && v@.skip(q.1 as int) == p.1),
            None => r is None,
        },
    decreases v@.len() - i,
{
    proof {
        assert(v@.skip(i as int).len() == v@.len() - i);
    }
    match ex_expect(v, i, "  \"") {
        Some(_) => match ex_tool(v, i) {
            Some((kt, j)) => {
                proof {
                    assert(v@.skip(j as int).len() == v@.len() - j);
                }
                match ex_tools(v, j) {
                    Some((mut ts, j2)) => {
                        let ghost t0 = ts@;
                        let ghost dv0 = tools_view(ts@);
                        let ghost ktv = (kt.0@, kt.1@);
                        ts.insert(0, kt);
                        proof {
                            assert forall|k: int|
                                0 <= k < tools_view(ts@).len() implies #[trigger] tools_view(
                                ts@,
                            )[k] == (seq![ktv] + dv0)[k] by {
                                if k == 0 {
                                    assert(ts@[0] == kt);
                                } else {
                                    assert(ts@[k] == t0[k - 1]);
                                    assert(dv0[k - 1] == (t0[k - 1].0@, t0[k - 1].1@));
                                }
                            }
                            assert(tools_view(ts@) =~= seq![ktv] + dv0);
                        }
                        Some((ts, j2))
                    },
                    None => None,
                }
            },
            None => None,
        },
        None => Some((Vec::new(), i)),
    }
}

/// Consumes the sync settings section.
fn ex_sync(v: &Vec<char>, i: usize) -> (r: Option<(SyncConfig, usize)>)
    requires
        i <= v@.len(),
    ensures
        match p_sync(v@.skip(i as int)) {
            Some(p) => (r matches Some(q) && q.0@ == p.0 && i <= q.1 <= v@.len() && v@.skip(
                q.1 as int,
            ) == p.1),
            None => r is None,
        },
{
    let (repo, i1) = match ex_opt_line(v, i, "  repo: ") {
        Some(p) => p,
        None => {
            return None;
        },
    };
    let (token, i2) = match ex_opt_line(v, i1, "  token: ") {
        Some(p) => p,
        None => {
            return None;
        },
    };
    let (last_sync, i3) = match ex_opt_line(v, i2, "  last_sync: ") {
        Some(p) => p,
        None => {
            return None;
        },
    };
    match ex_expect(v, i3, "  auto_sync: ") {
        Some(_) => match ex_bool_line(v, i3, "  auto_sync: ") {
            Some((auto_sync, i4)) => {
                let sc = SyncConfig { repo, token, last_sync, auto_sync };
                proof {
                    match p_sync(v@.skip(i as int)) {
                        Some(p) => {
                            assert(sc@ =~= p.0);
                        },
                        None => {},
                    }
                }
                Some((sc, i4))
            },
            None => None,
        },
        None => {
            let sc = SyncConfig { repo, token, last_sync, auto_sync: false };
            proof {
                match p_sync(v@.skip(i as int)) {
                    Some(p) => {
                        assert(sc@ =~= p.0);
                    },
                    None => {},
                }
            }
            Some((sc, i3))
        },
    }
}

/// Whether no two entries share a key.
fn keys_all_unique(ts: &Vec<(String, ToolConfig)>) -> (r: bool)
    ensures
        r == keys_unique(tools_view(ts@)),
{
    let n = ts.len();
    let mut i: usize = 0;
    while i < n
        invariant
            i <= n,
            n == ts@.len(),
            forall|a: int, b: int|
                0 <= a < b < ts@.len() && a < i ==> tools_view(ts@)[a].0 != tools_view(ts@)[b].0,
        decreases n - i,
    {
        let mut j: usize = i + 1;
        while j < n
            invariant
                i < n,
                n == ts@.len(),
                i + 1 <= j <= n,
                forall|a: int, b: int|
                    0 <= a < b < ts@.len() && a < i ==> tools_view(ts@)[a].0 != tools_view(
                        ts@,
                    )[b].0,
                forall|b: int| i < b < j ==> tools_view(ts@)[i as int].0 != tools_view(ts@)[b].0,
            decreases n - j,
        {
            if ts[i].0 == ts[j].0 {
                proof {
                    assert(tools_view(ts@)[i as int].0 == tools_view(ts@)[j as int].0);
                    assert(!keys_unique(tools_view(ts@)));
                }
                return false;
            }
            j += 1;
        }
        i += 1;
    }
    true
}

impl Config {
    /// Parses a document back into a registry. Returns the registry
    /// exactly when the text is a well-formed document with unique
    /// tool keys.
    pub fn from_document(s: &str) -> (r: Option<Config>)
        ensures
            match p_doc(s@) {
                Some(cv) => (r matches Some(c) && c@ == cv && c.wf()),
                None => r is None,
            },
    {
        let v = string_to_chars(s);
        proof {
            assert(v@.skip(0) =~= v@);
        }
        let j1 = match ex_expect(&v, 0, "tools:\n") {
            Some(j) => j,
            None => {
                return None;
            },
        };
        let (tools, j2) = match ex_tools(&v, j1) {
            Some(p) => p,
            None => {
                return None;
            },
        };
        let j3 = match ex_expect(&v, j2, "sync:\n") {
            Some(j) => j,
            None => {
                return None;
            },
        };
        let (sync, j4) = match ex_sync(&v, j3) {
            Some(p) => p,
            None => {
                return None;
            },
        };
        if j4 != v.len() {
            proof {
                assert(v@.skip(j4 as int).len() == v@.len() - j4);
            }
            return None;
        }
        proof {
            assert(v@.skip(j4 as int).len() == 0);
        }
        if !keys_all_unique(&tools) {
            return None;
        }
        let c = Config::from_parts(tools, sync);
        proof {
            match p_doc(s@) {
                Some(cv) => {
                    assert(c@ =~= cv);
                },
                None => {},
            }
        }
        Some(c)
    }
}

} // verus!
