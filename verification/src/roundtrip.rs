//! Round-trip law for the configuration format: reading a written
//! configuration back recovers it field for field, for every configuration.

use vstd::prelude::*;
use crate::config::{ActionModel, ConfigModel, TargetModel};
use crate::config_text::{
    apply_line_spec, classify_line, finalize_action, finalize_actions, finalize_spec,
    finalize_target, finalize_targets, init_pstate, kv_bool, kv_empty_array, kv_int, kv_str,
    parse_config_spec, parse_doc, parse_value_spec, render_action, render_actions,
    render_config_spec, render_lines_spec, render_target, render_targets, render_top, ConfigError,
    LineModel, PActionModel, PStateModel, PTargetModel, Section, ValueModel,
};
use crate::text::{
    escape, find_char, is_ws, lemma_escape_no_newline, lemma_find_char_concat,
    lemma_parse_u64_digits, lemma_split_join, lemma_trim_id, lemma_u64_digits_all_digits,
    lemma_unescape_escape, line_ok, split_lines, trim, trim_end, trim_start, u64_digits,
};

verus! {

/// A key as the renderer writes one: non-empty, no whitespace, no `=`, no
/// newline, and not opening like a comment or a section header.
pub open spec fn key_wf(key: Seq<char>) -> bool {
    &&& key.len() > 0
    &&& key[0] != '#'
    &&& key[0] != '['
    &&& forall|i: int|
        0 <= i < key.len() ==> (!is_ws(#[trigger] key[i]) && key[i] != '=' && key[i] != '\n')
}

/// The format's keys are well formed and mutually distinct where their
/// lengths agree.
proof fn lemma_literals()
    ensures
        key_wf("default_target"@),
        key_wf("check_interval_sec"@),
        key_wf("ping_timeout_ms"@),
        key_wf("retry_count"@),
        key_wf("notification_enabled"@),
        key_wf("log_file"@),
        key_wf("notification_command"@),
        key_wf("targets"@),
        key_wf("recovery_actions"@),
        key_wf("name"@),
        key_wf("address"@),
        key_wf("port"@),
        key_wf("timeout_ms"@),
        key_wf("command"@),
        key_wf("wait_after_ms"@),
        "default_target"@.len() == 14,
        "check_interval_sec"@.len() == 18,
        "ping_timeout_ms"@.len() == 15,
        "retry_count"@.len() == 11,
        "notification_enabled"@.len() == 20,
        "log_file"@.len() == 8,
        "notification_command"@.len() == 20,
        "targets"@.len() == 7,
        "recovery_actions"@.len() == 16,
        "name"@.len() == 4,
        "address"@.len() == 7,
        "port"@.len() == 4,
        "timeout_ms"@.len() == 10,
        "command"@.len() == 7,
        "wait_after_ms"@.len() == 13,
        "notification_enabled"@ != "notification_command"@,
        "name"@ != "port"@,
{
    reveal_strlit("default_target");
    reveal_strlit("check_interval_sec");
    reveal_strlit("ping_timeout_ms");
    reveal_strlit("retry_count");
    reveal_strlit("notification_enabled");
    reveal_strlit("log_file");
    reveal_strlit("notification_command");
    reveal_strlit("targets");
    reveal_strlit("recovery_actions");
    reveal_strlit("name");
    reveal_strlit("address");
    reveal_strlit("port");
    reveal_strlit("timeout_ms");
    reveal_strlit("command");
    reveal_strlit("wait_after_ms");
    assert(("notification_enabled"@)[13] == 'e');
    assert(("notification_command"@)[13] == 'c');
    assert(("name"@)[0] == 'n');
    assert(("port"@)[0] == 'p');
}

/// `key = "v"` reads back as a string assignment to `key`, and holds no
/// newline.
proof fn lemma_classify_kv_str(key: Seq<char>, v: Seq<char>)
    requires
        key_wf(key),
    ensures
        line_ok(kv_str(key, v)),
        classify_line(kv_str(key, v)) == (LineModel::KeyValue {
            key,
            value: ValueModel::VStr(v),
        }),
{
    reveal_strlit("[[targets]]");
    reveal_strlit("[[recovery_actions]]");
    let l = kv_str(key, v);
    let mid = seq![' ', '=', ' ', '"'];
    let e = escape(v);
    let tail = seq!['"'];
    lemma_escape_no_newline(v);
    assert forall|i: int| 0 <= i < l.len() implies #[trigger] l[i] != '\n' by {
        if i < key.len() {
            assert(l[i] == key[i]);
        } else if i < key.len() + 4 {
            assert(l[i] == mid[i - key.len()]);
        } else if i < key.len() + 4 + e.len() {
            assert(l[i] == e[i - key.len() - 4]);
        } else {
            assert(l[i] == tail[i - key.len() - 4 - e.len()]);
        }
    }
    assert(l[0] == key[0]);
    assert(l.last() == '"');
    lemma_trim_id(l);
    let t = trim(l);
    assert(t == l);
    assert(t[0] != '[');
    assert(("[[targets]]"@)[0] == '[');
    assert(("[[recovery_actions]]"@)[0] == '[');
    assert(t != "[[targets]]"@);
    assert(t != "[[recovery_actions]]"@);
    let a = key + seq![' '];
    assert forall|i: int| 0 <= i < a.len() implies #[trigger] a[i] != '=' by {
        if i < key.len() {
            assert(a[i] == key[i]);
        } else {
            assert(a[i] == ' ');
        }
    }
    let after_eq = seq![' ', '"'] + e + tail;
    assert(l =~= a + seq!['='] + after_eq);
    lemma_find_char_concat(a, after_eq, '=');
    let eq = find_char(t, '=');
    assert(eq == key.len() + 1);
    assert(t.take(eq) =~= a);
    assert(a.last() == ' ');
    assert(a.drop_last() =~= key);
    assert(!is_ws(key.last()));
    assert(trim_end(t.take(eq)) == trim_end(key));
    assert(trim_end(key) == key);
    let rest = t.skip(eq + 1);
    assert(rest =~= after_eq);
    assert(rest[0] == ' ');
    let vt = seq!['"'] + e + tail;
    assert(rest.drop_first() =~= vt);
    assert(vt[0] == '"');
    assert(!is_ws(vt[0]));
    assert(trim_start(t.skip(eq + 1)) == trim_start(vt));
    assert(trim_start(vt) == vt);
    assert(vt.len() >= 2);
    assert(vt.last() == '"');
    assert(vt.subrange(1, vt.len() - 1) =~= e);
    lemma_unescape_escape(v);
    assert(parse_value_spec(vt) == Some(ValueModel::VStr(v)));
}

/// `key = n` reads back as a numeric assignment to `key`, and holds no
/// newline.
proof fn lemma_classify_kv_int(key: Seq<char>, n: u64)
    requires
        key_wf(key),
    ensures
        line_ok(kv_int(key, n)),
        classify_line(kv_int(key, n)) == (LineModel::KeyValue { key, value: ValueModel::VInt(n) }),
{
    reveal_strlit("[[targets]]");
    reveal_strlit("[[recovery_actions]]");
    reveal_strlit("true");
    reveal_strlit("false");
    reveal_strlit("[]");
    let l = kv_int(key, n);
    let mid = seq![' ', '=', ' '];
    let d = u64_digits(n);
    lemma_u64_digits_all_digits(n);
    assert forall|i: int| 0 <= i < l.len() implies #[trigger] l[i] != '\n' by {
        if i < key.len() {
            assert(l[i] == key[i]);
        } else if i < key.len() + 3 {
            assert(l[i] == mid[i - key.len()]);
        } else {
            assert(l[i] == d[i - key.len() - 3]);
            assert(crate::text::is_digit(l[i]));
        }
    }
    assert(l[0] == key[0]);
    assert(l.last() == d.last());
    assert(crate::text::is_digit(d.last()));
    lemma_trim_id(l);
    let t = trim(l);
    assert(t == l);
    assert(t[0] != '[');
    assert(("[[targets]]"@)[0] == '[');
    assert(("[[recovery_actions]]"@)[0] == '[');
    assert(t != "[[targets]]"@);
    assert(t != "[[recovery_actions]]"@);
    let a = key + seq![' '];
    assert forall|i: int| 0 <= i < a.len() implies #[trigger] a[i] != '=' by {
        if i < key.len() {
            assert(a[i] == key[i]);
        } else {
            assert(a[i] == ' ');
        }
    }
    let after_eq = seq![' '] + d;
    assert(l =~= a + seq!['='] + after_eq);
    lemma_find_char_concat(a, after_eq, '=');
    let eq = find_char(t, '=');
    assert(eq == key.len() + 1);
    assert(t.take(eq) =~= a);
    assert(a.last() == ' ');
    assert(a.drop_last() =~= key);
    assert(!is_ws(key.last()));
    assert(trim_end(t.take(eq)) == trim_end(key));
    assert(trim_end(key) == key);
    let rest = t.skip(eq + 1);
    assert(rest =~= after_eq);
    assert(rest[0] == ' ');
    assert(rest.drop_first() =~= d);
    assert(crate::text::is_digit(d[0]));
    assert(!is_ws(d[0]));
    assert(trim_start(t.skip(eq + 1)) == trim_start(d));
    assert(trim_start(d) == d);
    assert(d[0] != '"');
    assert(("true"@)[0] == 't');
    assert(d != "true"@);
    assert(("false"@)[0] == 'f');
    assert(d != "false"@);
    assert(("[]"@)[0] == '[');
    assert(d != "[]"@);
    lemma_parse_u64_digits(n);
    assert(parse_value_spec(d) == Some(ValueModel::VInt(n)));
}

/// `key = true|false` reads back as a boolean assignment to `key`.
proof fn lemma_classify_kv_bool(key: Seq<char>, b: bool)
    requires
        key_wf(key),
    ensures
        line_ok(kv_bool(key, b)),
        classify_line(kv_bool(key, b)) == (LineModel::KeyValue {
            key,
            value: ValueModel::VBool(b),
        }),
{
    reveal_strlit("[[targets]]");
    reveal_strlit("[[recovery_actions]]");
    reveal_strlit("true");
    reveal_strlit("false");
    reveal_strlit("[]");
    let l = kv_bool(key, b);
    let mid = seq![' ', '=', ' '];
    let w = if b {
        "true"@
    } else {
        "false"@
    };
    assert(forall|i: int| 0 <= i < w.len() ==> #[trigger] w[i] != '\n' && !is_ws(w[i]));
    assert forall|i: int| 0 <= i < l.len() implies #[trigger] l[i] != '\n' by {
        if i < key.len() {
            assert(l[i] == key[i]);
        } else if i < key.len() + 3 {
            assert(l[i] == mid[i - key.len()]);
        } else {
            assert(l[i] == w[i - key.len() - 3]);
        }
    }
    assert(l[0] == key[0]);
    assert(l.last() == w.last());
    lemma_trim_id(l);
    let t = trim(l);
    assert(t == l);
    assert(t[0] != '[');
    assert(("[[targets]]"@)[0] == '[');
    assert(("[[recovery_actions]]"@)[0] == '[');
    assert(t != "[[targets]]"@);
    assert(t != "[[recovery_actions]]"@);
    let a = key + seq![' '];
    assert forall|i: int| 0 <= i < a.len() implies #[trigger] a[i] != '=' by {
        if i < key.len() {
            assert(a[i] == key[i]);
        } else {
            assert(a[i] == ' ');
        }
    }
    let after_eq = seq![' '] + w;
    assert(l =~= a + seq!['='] + after_eq);
    lemma_find_char_concat(a, after_eq, '=');
    let eq = find_char(t, '=');
    assert(eq == key.len() + 1);
    assert(t.take(eq) =~= a);
    assert(a.last() == ' ');
    assert(a.drop_last() =~= key);
    assert(!is_ws(key.last()));
    assert(trim_end(t.take(eq)) == trim_end(key));
    assert(trim_end(key) == key);
    let rest = t.skip(eq + 1);
    assert(rest =~= after_eq);
    assert(rest[0] == ' ');
    assert(rest.drop_first() =~= w);
    assert(!is_ws(w[0]));
    assert(trim_start(t.skip(eq + 1)) == trim_start(w));
    assert(trim_start(w) == w);
    assert(w[0] != '"');
    assert(parse_value_spec(w) == Some(ValueModel::VBool(b)));
}

/// `key = []` reads back as an empty-list assignment to `key`.
proof fn lemma_classify_kv_empty_array(key: Seq<char>)
    requires
        key_wf(key),
    ensures
        line_ok(kv_empty_array(key)),
        classify_line(kv_empty_array(key)) == (LineModel::KeyValue {
            key,
            value: ValueModel::VEmptyArray,
        }),
{
    reveal_strlit("[[targets]]");
    reveal_strlit("[[recovery_actions]]");
    reveal_strlit("true");
    reveal_strlit("false");
    reveal_strlit("[]");
    let l = kv_empty_array(key);
    let mid = seq![' ', '=', ' ', '[', ']'];
    assert forall|i: int| 0 <= i < l.len() implies #[trigger] l[i] != '\n' by {
        if i < key.len() {
            assert(l[i] == key[i]);
        } else {
            assert(l[i] == mid[i - key.len()]);
        }
    }
    assert(l[0] == key[0]);
    assert(l.last() == ']');
    lemma_trim_id(l);
    let t = trim(l);
    assert(t == l);
    assert(t[0] != '[');
    assert(("[[targets]]"@)[0] == '[');
    assert(("[[recovery_actions]]"@)[0] == '[');
    assert(t != "[[targets]]"@);
    assert(t != "[[recovery_actions]]"@);
    let a = key + seq![' '];
    assert forall|i: int| 0 <= i < a.len() implies #[trigger] a[i] != '=' by {
        if i < key.len() {
            assert(a[i] == key[i]);
        } else {
            assert(a[i] == ' ');
        }
    }
    let w = seq!['[', ']'];
    let after_eq = seq![' '] + w;
    assert(l =~= a + seq!['='] + after_eq);
    lemma_find_char_concat(a, after_eq, '=');
    let eq = find_char(t, '=');
    assert(eq == key.len() + 1);
    assert(t.take(eq) =~= a);
    assert(a.last() == ' ');
    assert(a.drop_last() =~= key);
    assert(!is_ws(key.last()));
    assert(trim_end(t.take(eq)) == trim_end(key));
    assert(trim_end(key) == key);
    let rest = t.skip(eq + 1);
    assert(rest =~= after_eq);
    assert(rest[0] == ' ');
    assert(rest.drop_first() =~= w);
    assert(!is_ws(w[0]));
    assert(trim_start(t.skip(eq + 1)) == trim_start(w));
    assert(trim_start(w) == w);
    assert(w[0] != '"');
    assert(w != "true"@);
    assert(w != "false"@);
    assert(w =~= "[]"@);
    assert(parse_value_spec(w) == Some(ValueModel::VEmptyArray));
}

/// The two block headers and the blank line read back as themselves.
proof fn lemma_classify_fixed()
    ensures
        line_ok("[[targets]]"@),
        line_ok("[[recovery_actions]]"@),
        line_ok(Seq::<char>::empty()),
        classify_line("[[targets]]"@) == LineModel::TargetHeader,
        classify_line("[[recovery_actions]]"@) == LineModel::ActionHeader,
        classify_line(Seq::<char>::empty()) == LineModel::Blank,
{
    reveal_strlit("[[targets]]");
    reveal_strlit("[[recovery_actions]]");
    let h1 = "[[targets]]"@;
    let h2 = "[[recovery_actions]]"@;
    assert(forall|i: int| 0 <= i < h1.len() ==> #[trigger] h1[i] != '\n' && !is_ws(h1[i]));
    assert(forall|i: int| 0 <= i < h2.len() ==> #[trigger] h2[i] != '\n' && !is_ws(h2[i]));
    lemma_trim_id(h1);
    lemma_trim_id(h2);
    assert(h2 != h1);
    let e = Seq::<char>::empty();
    assert(trim_start(e) == e);
    assert(trim_end(e) == e);
    assert(trim(e).len() == 0);
}

/// Reading a concatenation reads the first part, then the second.
proof fn lemma_parse_doc_concat(st: PStateModel, a: Seq<Seq<char>>, b: Seq<Seq<char>>, n: int)
    ensures
        parse_doc(st, a + b, n) == (match parse_doc(st, a, n) {
            Ok(st2) => parse_doc(st2, b, n + a.len()),
            Err(e) => Err(e),
        }),
    decreases a.len(),
{
    if a.len() == 0 {
        assert(a + b =~= b);
    } else {
        assert((a + b)[0] == a[0]);
        assert((a + b).len() > 0);
        assert((a + b).drop_first() =~= a.drop_first() + b);
        if apply_line_spec(st, a[0], n) is Ok {
            let st2 = apply_line_spec(st, a[0], n)->Ok_0;
            lemma_parse_doc_concat(st2, a.drop_first(), b, n + 1);
        }
    }
}

/// The reader's state after the top section of configuration `c`.
pub open spec fn top_state(c: ConfigModel) -> PStateModel {
    PStateModel {
        section: Section::Top,
        default_target: Some(c.default_target),
        check_interval_sec: Some(c.check_interval_sec),
        ping_timeout_ms: Some(c.ping_timeout_ms),
        retry_count: Some(c.retry_count),
        notification_enabled: Some(c.notification_enabled),
        log_file: c.log_file,
        notification_command: c.notification_command,
        targets_empty: c.targets.len() == 0,
        actions_empty: c.recovery_actions.len() == 0,
        targets: Seq::empty(),
        actions: Seq::empty(),
    }
}

/// Reading the rendered top section of `c` from a fresh state yields
/// exactly the top fields of `c`.
#[verifier::rlimit(100)]
proof fn lemma_parse_top(c: ConfigModel, n0: int)
    ensures
        parse_doc(init_pstate(), render_top(c), n0) == Ok::<PStateModel, ConfigError>(
            top_state(c),
        ),
{
    lemma_literals();
    let base = seq![
        kv_str("default_target"@, c.default_target),
        kv_int("check_interval_sec"@, c.check_interval_sec),
        kv_int("ping_timeout_ms"@, c.ping_timeout_ms),
        kv_int("retry_count"@, c.retry_count as u64),
        kv_bool("notification_enabled"@, c.notification_enabled),
    ];
    lemma_classify_kv_str("default_target"@, c.default_target);
    lemma_classify_kv_int("check_interval_sec"@, c.check_interval_sec);
    lemma_classify_kv_int("ping_timeout_ms"@, c.ping_timeout_ms);
    lemma_classify_kv_int("retry_count"@, c.retry_count as u64);
    lemma_classify_kv_bool("notification_enabled"@, c.notification_enabled);
    let st0 = init_pstate();
    let st1 = apply_line_spec(st0, base[0], n0)->Ok_0;
    let st2 = apply_line_spec(st1, base[1], n0 + 1)->Ok_0;
    let st3 = apply_line_spec(st2, base[2], n0 + 2)->Ok_0;
    let st4 = apply_line_spec(st3, base[3], n0 + 3)->Ok_0;
    let st5 = apply_line_spec(st4, base[4], n0 + 4)->Ok_0;
    assert(st1 =~~= PStateModel { default_target: Some(c.default_target), ..st0 });
    assert(st2 =~~= PStateModel { check_interval_sec: Some(c.check_interval_sec), ..st1 });
    assert(st3 =~~= PStateModel { ping_timeout_ms: Some(c.ping_timeout_ms), ..st2 });
    assert(st4 =~~= PStateModel { retry_count: Some((c.retry_count as u64) as u8), ..st3 });
    assert(st5 =~~= PStateModel { notification_enabled: Some(c.notification_enabled), ..st4 });
    assert((c.retry_count as u64) <= u8::MAX as u64);
    assert(st5.retry_count == Some((c.retry_count as u64) as u8));
    assert((c.retry_count as u64) as u8 == c.retry_count);
    assert(parse_doc(st0, base, n0) == Ok::<PStateModel, ConfigError>(st5)) by {
        let s1 = base.drop_first();
        let s2 = s1.drop_first();
        let s3 = s2.drop_first();
        let s4 = s3.drop_first();
        let s5 = s4.drop_first();
        assert(s1[0] == base[1]);
        assert(s2[0] == base[2]);
        assert(s3[0] == base[3]);
        assert(s4[0] == base[4]);
        assert(s5.len() == 0);
        assert(parse_doc(st0, base, n0) == parse_doc(st1, s1, n0 + 1));
        assert(parse_doc(st1, s1, n0 + 1) == parse_doc(st2, s2, n0 + 2));
        assert(parse_doc(st2, s2, n0 + 2) == parse_doc(st3, s3, n0 + 3));
        assert(parse_doc(st3, s3, n0 + 3) == parse_doc(st4, s4, n0 + 4));
        assert(parse_doc(st4, s4, n0 + 4) == parse_doc(st5, s5, n0 + 5));
    }
    let lf = crate::config_text::opt_line_str("log_file"@, c.log_file);
    let st6 = if c.log_file is Some {
        apply_line_spec(st5, kv_str("log_file"@, c.log_file->0), n0 + 5)->Ok_0
    } else {
        st5
    };
    if c.log_file is Some {
        lemma_classify_kv_str("log_file"@, c.log_file->0);
        assert(lf[0] == kv_str("log_file"@, c.log_file->0));
        assert(st6 =~~= PStateModel { log_file: c.log_file, ..st5 });
        assert(parse_doc(st5, lf, n0 + 5) == Ok::<PStateModel, ConfigError>(st6)) by {
            assert(lf.drop_first().len() == 0);
            assert(parse_doc(st6, lf.drop_first(), n0 + 5 + 1) == Ok::<PStateModel, ConfigError>(st6));
            assert(parse_doc(st5, lf, n0 + 5) == parse_doc(st6, lf.drop_first(), n0 + 5 + 1));
        }
    } else {
        assert(lf.len() == 0);
    }
    lemma_parse_doc_concat(st0, base, lf, n0);
    assert(parse_doc(st0, base + lf, n0) == Ok::<PStateModel, ConfigError>(st6));
    let nc = crate::config_text::opt_line_str("notification_command"@, c.notification_command);
    let n6 = n0 + base.len() + lf.len();
    let st7 = if c.notification_command is Some {
        apply_line_spec(st6, kv_str("notification_command"@, c.notification_command->0), n6)->Ok_0
    } else {
        st6
    };
    if c.notification_command is Some {
        lemma_classify_kv_str("notification_command"@, c.notification_command->0);
        assert(nc[0] == kv_str("notification_command"@, c.notification_command->0));
        assert(st7 =~~= PStateModel { notification_command: c.notification_command, ..st6 });
        assert(parse_doc(st6, nc, n6) == Ok::<PStateModel, ConfigError>(st7)) by {
            assert(nc.drop_first().len() == 0);
            assert(parse_doc(st7, nc.drop_first(), n6 + 1) == Ok::<PStateModel, ConfigError>(st7));
            assert(parse_doc(st6, nc, n6) == parse_doc(st7, nc.drop_first(), n6 + 1));
        }
    } else {
        assert(nc.len() == 0);
    }
    lemma_parse_doc_concat(st0, base + lf, nc, n0);
    assert(parse_doc(st0, base + lf + nc, n0) == Ok::<PStateModel, ConfigError>(st7));
    let te: Seq<Seq<char>> = if c.targets.len() == 0 {
        seq![kv_empty_array("targets"@)]
    } else {
        Seq::empty()
    };
    let n7 = n6 + nc.len();
    let st8 = if c.targets.len() == 0 {
        apply_line_spec(st7, kv_empty_array("targets"@), n7)->Ok_0
    } else {
        st7
    };
    if c.targets.len() == 0 {
        lemma_classify_kv_empty_array("targets"@);
        assert(te[0] == kv_empty_array("targets"@));
        assert(st8 =~~= PStateModel { targets_empty: true, ..st7 });
        assert(parse_doc(st7, te, n7) == Ok::<PStateModel, ConfigError>(st8)) by {
            assert(te.drop_first().len() == 0);
            assert(parse_doc(st8, te.drop_first(), n7 + 1) == Ok::<PStateModel, ConfigError>(st8));
            assert(parse_doc(st7, te, n7) == parse_doc(st8, te.drop_first(), n7 + 1));
        }
    }
    lemma_parse_doc_concat(st0, base + lf + nc, te, n0);
    assert(parse_doc(st0, base + lf + nc + te, n0) == Ok::<PStateModel, ConfigError>(st8));
    let ae: Seq<Seq<char>> = if c.recovery_actions.len() == 0 {
        seq![kv_empty_array("recovery_actions"@)]
    } else {
        Seq::empty()
    };
    let n8 = n7 + te.len();
    let st9 = if c.recovery_actions.len() == 0 {
        apply_line_spec(st8, kv_empty_array("recovery_actions"@), n8)->Ok_0
    } else {
        st8
    };
    if c.recovery_actions.len() == 0 {
        lemma_classify_kv_empty_array("recovery_actions"@);
        assert(ae[0] == kv_empty_array("recovery_actions"@));
        assert(st9 =~~= PStateModel { actions_empty: true, ..st8 });
        assert(parse_doc(st8, ae, n8) == Ok::<PStateModel, ConfigError>(st9)) by {
            assert(ae.drop_first().len() == 0);
            assert(parse_doc(st9, ae.drop_first(), n8 + 1) == Ok::<PStateModel, ConfigError>(st9));
            assert(parse_doc(st8, ae, n8) == parse_doc(st9, ae.drop_first(), n8 + 1));
        }
    }
    lemma_parse_doc_concat(st0, base + lf + nc + te, ae, n0);
    assert(parse_doc(st0, base + lf + nc + te + ae, n0) == Ok::<PStateModel, ConfigError>(st9));
    assert(render_top(c) == base + lf + nc + te + ae);
    assert(st9 =~~= top_state(c));
}

/// The partial block the reader accumulates for target `t`.
pub open spec fn partial_of_target(t: TargetModel) -> PTargetModel {
    PTargetModel {
        name: Some(t.name),
        address: Some(t.address),
        port: t.port,
        timeout_ms: t.timeout_ms,
        retry_count: t.retry_count,
    }
}

/// The partial block the reader accumulates for action `a`.
pub open spec fn partial_of_action(a: ActionModel) -> PActionModel {
    PActionModel { name: Some(a.name), command: Some(a.command), wait_after_ms: a.wait_after_ms }
}

/// Reading one rendered target block appends exactly that target's partial
/// block and leaves every other part of the state alone.
#[verifier::rlimit(100)]
proof fn lemma_parse_target_block(st: PStateModel, t: TargetModel, n0: int)
    requires
        !st.targets_empty,
    ensures
        parse_doc(st, render_target(t), n0) == Ok::<PStateModel, ConfigError>(
            PStateModel {
                section: Section::InTargets,
                targets: st.targets.push(partial_of_target(t)),
                ..st
            },
        ),
{
    lemma_literals();
    lemma_classify_fixed();
    lemma_classify_kv_str("name"@, t.name);
    lemma_classify_kv_str("address"@, t.address);
    let base = seq![
        Seq::<char>::empty(),
        "[[targets]]"@,
        kv_str("name"@, t.name),
        kv_str("address"@, t.address),
    ];
    let st0 = st;
    let st1 = apply_line_spec(st0, base[0], n0)->Ok_0;
    let st2 = apply_line_spec(st1, base[1], n0 + 1)->Ok_0;
    let st3 = apply_line_spec(st2, base[2], n0 + 2)->Ok_0;
    let st4 = apply_line_spec(st3, base[3], n0 + 3)->Ok_0;
    let i0 = st.targets.len() as int;
    assert(st1 == st0);
    assert(st2.targets == st0.targets.push(crate::config_text::empty_ptarget()));
    assert(st2.section == Section::InTargets);
    assert(st3 =~~= PStateModel {
        targets: st2.targets.update(
            i0,
            PTargetModel { name: Some(t.name), ..crate::config_text::empty_ptarget() },
        ),
        ..st2
    });
    assert(st4 =~~= PStateModel {
        targets: st3.targets.update(
            i0,
            PTargetModel {
                name: Some(t.name),
                address: Some(t.address),
                ..crate::config_text::empty_ptarget()
            },
        ),
        ..st3
    });
    assert(st4.targets.len() == i0 + 1);
    assert(st4.targets[i0] =~~= PTargetModel {
        name: Some(t.name),
        address: Some(t.address),
        ..crate::config_text::empty_ptarget()
    });
    assert(parse_doc(st0, base, n0) == Ok::<PStateModel, ConfigError>(st4)) by {
        let s1 = base.drop_first();
        let s2 = s1.drop_first();
        let s3 = s2.drop_first();
        let s4 = s3.drop_first();
        assert(s1[0] == base[1]);
        assert(s2[0] == base[2]);
        assert(s3[0] == base[3]);
        assert(s4.len() == 0);
        assert(parse_doc(st0, base, n0) == parse_doc(st1, s1, n0 + 1));
        assert(parse_doc(st1, s1, n0 + 1) == parse_doc(st2, s2, n0 + 2));
        assert(parse_doc(st2, s2, n0 + 2) == parse_doc(st3, s3, n0 + 3));
        assert(parse_doc(st3, s3, n0 + 3) == parse_doc(st4, s4, n0 + 4));
    }
    let pl = crate::config_text::opt_line_int(
        "port"@,
        match t.port {
            Some(p) => Some(p as u64),
            None => None,
        },
    );
    let n4 = n0 + 4;
    let st5 = if t.port is Some {
        apply_line_spec(st4, kv_int("port"@, t.port->0 as u64), n4)->Ok_0
    } else {
        st4
    };
    if t.port is Some {
        lemma_classify_kv_int("port"@, t.port->0 as u64);
        assert((t.port->0 as u64) <= u16::MAX as u64);
        assert((t.port->0 as u64) as u16 == t.port->0);
        assert(pl[0] == kv_int("port"@, t.port->0 as u64));
        assert(st5 =~~= PStateModel {
            targets: st4.targets.update(
                i0,
                PTargetModel { port: t.port, ..st4.targets[i0] },
            ),
            ..st4
        });
        assert(parse_doc(st4, pl, n4) == Ok::<PStateModel, ConfigError>(st5)) by {
            assert(pl.drop_first().len() == 0);
            assert(parse_doc(st5, pl.drop_first(), n4 + 1) == Ok::<PStateModel, ConfigError>(st5));
            assert(parse_doc(st4, pl, n4) == parse_doc(st5, pl.drop_first(), n4 + 1));
        }
    } else {
        assert(pl.len() == 0);
    }
    lemma_parse_doc_concat(st0, base, pl, n0);
    assert(parse_doc(st0, base + pl, n0) == Ok::<PStateModel, ConfigError>(st5));
    let tl = crate::config_text::opt_line_int("timeout_ms"@, t.timeout_ms);
    let n5 = n4 + pl.len();
    let st6 = if t.timeout_ms is Some {
        apply_line_spec(st5, kv_int("timeout_ms"@, t.timeout_ms->0), n5)->Ok_0
    } else {
        st5
    };
    assert(st5.targets.len() == i0 + 1);
    assert(st5.targets[i0].name == Some(t.name));
    assert(st5.targets[i0].address == Some(t.address));
    assert(st5.targets[i0].port == t.port);
    assert(st5.targets[i0].timeout_ms is None);
    assert(st5.targets[i0].retry_count is None);
    if t.timeout_ms is Some {
        lemma_classify_kv_int("timeout_ms"@, t.timeout_ms->0);
        assert(tl[0] == kv_int("timeout_ms"@, t.timeout_ms->0));
        assert(st6 =~~= PStateModel {
            targets: st5.targets.update(
                i0,
                PTargetModel { timeout_ms: t.timeout_ms, ..st5.targets[i0] },
            ),
            ..st5
        });
        assert(parse_doc(st5, tl, n5) == Ok::<PStateModel, ConfigError>(st6)) by {
            assert(tl.drop_first().len() == 0);
            assert(parse_doc(st6, tl.drop_first(), n5 + 1) == Ok::<PStateModel, ConfigError>(st6));
            assert(parse_doc(st5, tl, n5) == parse_doc(st6, tl.drop_first(), n5 + 1));
        }
    } else {
        assert(tl.len() == 0);
    }
    lemma_parse_doc_concat(st0, base + pl, tl, n0);
    assert(parse_doc(st0, base + pl + tl, n0) == Ok::<PStateModel, ConfigError>(st6));
    let rl = crate::config_text::opt_line_int(
        "retry_count"@,
        match t.retry_count {
            Some(r) => Some(r as u64),
            None => None,
        },
    );
    let n6 = n5 + tl.len();
    let st7 = if t.retry_count is Some {
        apply_line_spec(st6, kv_int("retry_count"@, t.retry_count->0 as u64), n6)->Ok_0
    } else {
        st6
    };
    assert(st6.targets.len() == i0 + 1);
    assert(st6.targets[i0].timeout_ms == t.timeout_ms);
    assert(st6.targets[i0].retry_count is None);
    if t.retry_count is Some {
        lemma_classify_kv_int("retry_count"@, t.retry_count->0 as u64);
        assert((t.retry_count->0 as u64) <= u8::MAX as u64);
        assert((t.retry_count->0 as u64) as u8 == t.retry_count->0);
        assert(rl[0] == kv_int("retry_count"@, t.retry_count->0 as u64));
        assert(st7 =~~= PStateModel {
            targets: st6.targets.update(
                i0,
                PTargetModel { retry_count: t.retry_count, ..st6.targets[i0] },
            ),
            ..st6
        });
        assert(parse_doc(st6, rl, n6) == Ok::<PStateModel, ConfigError>(st7)) by {
            assert(rl.drop_first().len() == 0);
            assert(parse_doc(st7, rl.drop_first(), n6 + 1) == Ok::<PStateModel, ConfigError>(st7));
            assert(parse_doc(st6, rl, n6) == parse_doc(st7, rl.drop_first(), n6 + 1));
        }
    } else {
        assert(rl.len() == 0);
    }
    lemma_parse_doc_concat(st0, base + pl + tl, rl, n0);
    assert(parse_doc(st0, base + pl + tl + rl, n0) == Ok::<PStateModel, ConfigError>(st7));
    assert(render_target(t) == base + pl + tl + rl);
    let goal = PStateModel {
        section: Section::InTargets,
        targets: st.targets.push(partial_of_target(t)),
        ..st
    };
    assert(st7.targets =~= goal.targets) by {
        let k = st.targets.len() as int;
        assert(st7.targets.len() == k + 1);
        assert(forall|i: int| 0 <= i < k ==> st7.targets[i] == st.targets[i]);
        assert(st7.targets[k] =~= partial_of_target(t));
    }
    assert(st7 =~~= goal);
}

/// Reading one rendered action block appends exactly that action's partial
/// block and leaves every other part of the state alone.
#[verifier::rlimit(100)]
proof fn lemma_parse_action_block(st: PStateModel, a: ActionModel, n0: int)
    requires
        !st.actions_empty,
    ensures
        parse_doc(st, render_action(a), n0) == Ok::<PStateModel, ConfigError>(
            PStateModel {
                section: Section::InActions,
                actions: st.actions.push(partial_of_action(a)),
                ..st
            },
        ),
{
    lemma_literals();
    lemma_classify_fixed();
    lemma_classify_kv_str("name"@, a.name);
    lemma_classify_kv_str("command"@, a.command);
    let base = seq![
        Seq::<char>::empty(),
        "[[recovery_actions]]"@,
        kv_str("name"@, a.name),
        kv_str("command"@, a.command),
    ];
    let st0 = st;
    let st1 = apply_line_spec(st0, base[0], n0)->Ok_0;
    let st2 = apply_line_spec(st1, base[1], n0 + 1)->Ok_0;
    let st3 = apply_line_spec(st2, base[2], n0 + 2)->Ok_0;
    let st4 = apply_line_spec(st3, base[3], n0 + 3)->Ok_0;
    let i0 = st.actions.len() as int;
    assert(st1 == st0);
    assert(st2.actions == st0.actions.push(crate::config_text::empty_paction()));
    assert(st2.section == Section::InActions);
    assert(st3 =~~= PStateModel {
        actions: st2.actions.update(
            i0,
            PActionModel { name: Some(a.name), ..crate::config_text::empty_paction() },
        ),
        ..st2
    });
    assert(st4 =~~= PStateModel {
        actions: st3.actions.update(
            i0,
            PActionModel {
                name: Some(a.name),
                command: Some(a.command),
                ..crate::config_text::empty_paction()
            },
        ),
        ..st3
    });
    assert(st4.actions.len() == i0 + 1);
    assert(st4.actions[i0].wait_after_ms is None);
    assert(parse_doc(st0, base, n0) == Ok::<PStateModel, ConfigError>(st4)) by {
        let s1 = base.drop_first();
        let s2 = s1.drop_first();
        let s3 = s2.drop_first();
        let s4 = s3.drop_first();
        assert(s1[0] == base[1]);
        assert(s2[0] == base[2]);
        assert(s3[0] == base[3]);
        assert(s4.len() == 0);
        assert(parse_doc(st0, base, n0) == parse_doc(st1, s1, n0 + 1));
        assert(parse_doc(st1, s1, n0 + 1) == parse_doc(st2, s2, n0 + 2));
        assert(parse_doc(st2, s2, n0 + 2) == parse_doc(st3, s3, n0 + 3));
        assert(parse_doc(st3, s3, n0 + 3) == parse_doc(st4, s4, n0 + 4));
    }
    let wl = crate::config_text::opt_line_int("wait_after_ms"@, a.wait_after_ms);
    let n4 = n0 + 4;
    let st5 = if a.wait_after_ms is Some {
        apply_line_spec(st4, kv_int("wait_after_ms"@, a.wait_after_ms->0), n4)->Ok_0
    } else {
        st4
    };
    if a.wait_after_ms is Some {
        lemma_classify_kv_int("wait_after_ms"@, a.wait_after_ms->0);
        assert(wl[0] == kv_int("wait_after_ms"@, a.wait_after_ms->0));
        assert(st5 =~~= PStateModel {
            actions: st4.actions.update(
                i0,
                PActionModel { wait_after_ms: a.wait_after_ms, ..st4.actions[i0] },
            ),
            ..st4
        });
        assert(parse_doc(st4, wl, n4) == Ok::<PStateModel, ConfigError>(st5)) by {
            assert(wl.drop_first().len() == 0);
            assert(parse_doc(st5, wl.drop_first(), n4 + 1) == Ok::<PStateModel, ConfigError>(st5));
            assert(parse_doc(st4, wl, n4) == parse_doc(st5, wl.drop_first(), n4 + 1));
        }
    } else {
        assert(wl.len() == 0);
    }
    lemma_parse_doc_concat(st0, base, wl, n0);
    assert(parse_doc(st0, base + wl, n0) == Ok::<PStateModel, ConfigError>(st5));
    assert(render_action(a) == base + wl);
    let goal = PStateModel {
        section: Section::InActions,
        actions: st.actions.push(partial_of_action(a)),
        ..st
    };
    assert(st5.actions =~= goal.actions) by {
        let k = st.actions.len() as int;
        assert(st5.actions.len() == k + 1);
        assert(forall|i: int| 0 <= i < k ==> st5.actions[i] == st.actions[i]);
        assert(st5.actions[k] =~= partial_of_action(a));
    }
    assert(st5 =~~= goal);
}

/// The partial blocks of a target list.
pub open spec fn partials_of_targets(ts: Seq<TargetModel>) -> Seq<PTargetModel> {
    Seq::new(ts.len(), |i: int| partial_of_target(ts[i]))
}

/// The partial blocks of an action list.
pub open spec fn partials_of_actions(acts: Seq<ActionModel>) -> Seq<PActionModel> {
    Seq::new(acts.len(), |i: int| partial_of_action(acts[i]))
}

/// Reading all rendered target blocks appends all their partial blocks.
proof fn lemma_parse_targets(st: PStateModel, ts: Seq<TargetModel>, n0: int)
    requires
        !st.targets_empty,
    ensures
        parse_doc(st, render_targets(ts), n0) == Ok::<PStateModel, ConfigError>(
            PStateModel {
                section: if ts.len() > 0 {
                    Section::InTargets
                } else {
                    st.section
                },
                targets: st.targets + partials_of_targets(ts),
                ..st
            },
        ),
    decreases ts.len(),
{
    if ts.len() == 0 {
        assert(render_targets(ts).len() == 0);
        assert(st.targets + partials_of_targets(ts) =~= st.targets);
        assert(PStateModel { section: st.section, targets: st.targets + partials_of_targets(ts), ..st }
            =~~= st);
    } else {
        lemma_parse_target_block(st, ts[0], n0);
        let st1 = PStateModel {
            section: Section::InTargets,
            targets: st.targets.push(partial_of_target(ts[0])),
            ..st
        };
        lemma_parse_doc_concat(st, render_target(ts[0]), render_targets(ts.drop_first()), n0);
        lemma_parse_targets(st1, ts.drop_first(), n0 + render_target(ts[0]).len());
        let rest = ts.drop_first();
        assert(st1.targets + partials_of_targets(rest) =~= st.targets + partials_of_targets(ts))
            by {
            assert(forall|i: int|
                0 <= i < rest.len() ==> partials_of_targets(rest)[i] == partial_of_target(
                    ts[i + 1],
                ));
        }
        let goal_rest = PStateModel {
            section: if rest.len() > 0 {
                Section::InTargets
            } else {
                st1.section
            },
            targets: st1.targets + partials_of_targets(rest),
            ..st1
        };
        let goal = PStateModel {
            section: Section::InTargets,
            targets: st.targets + partials_of_targets(ts),
            ..st
        };
        assert(goal_rest =~~= goal);
    }
}

/// Reading all rendered action blocks appends all their partial blocks.
proof fn lemma_parse_actions(st: PStateModel, acts: Seq<ActionModel>, n0: int)
    requires
        !st.actions_empty,
    ensures
        parse_doc(st, render_actions(acts), n0) == Ok::<PStateModel, ConfigError>(
            PStateModel {
                section: if acts.len() > 0 {
                    Section::InActions
                } else {
                    st.section
                },
                actions: st.actions + partials_of_actions(acts),
                ..st
            },
        ),
    decreases acts.len(),
{
    if acts.len() == 0 {
        assert(render_actions(acts).len() == 0);
        assert(st.actions + partials_of_actions(acts) =~= st.actions);
        assert(PStateModel { section: st.section, actions: st.actions + partials_of_actions(acts), ..st }
            =~~= st);
    } else {
        lemma_parse_action_block(st, acts[0], n0);
        let st1 = PStateModel {
            section: Section::InActions,
            actions: st.actions.push(partial_of_action(acts[0])),
            ..st
        };
        lemma_parse_doc_concat(st, render_action(acts[0]), render_actions(acts.drop_first()), n0);
        lemma_parse_actions(st1, acts.drop_first(), n0 + render_action(acts[0]).len());
        let rest = acts.drop_first();
        assert(st1.actions + partials_of_actions(rest) =~= st.actions + partials_of_actions(acts))
            by {
            assert(forall|i: int|
                0 <= i < rest.len() ==> partials_of_actions(rest)[i] == partial_of_action(
                    acts[i + 1],
                ));
        }
        let goal_rest = PStateModel {
            section: if rest.len() > 0 {
                Section::InActions
            } else {
                st1.section
            },
            actions: st1.actions + partials_of_actions(rest),
            ..st1
        };
        let goal = PStateModel {
            section: Section::InActions,
            actions: st.actions + partials_of_actions(acts),
            ..st
        };
        assert(goal_rest =~~= goal);
    }
}

/// Every rendered line is newline-free.
proof fn lemma_render_lines_ok(c: ConfigModel)
    ensures
        forall|k: int|
            0 <= k < render_lines_spec(c).len() ==> line_ok(#[trigger] render_lines_spec(c)[k]),
        render_lines_spec(c).len() > 0,
{
    lemma_literals();
    lemma_classify_fixed();
    let top = render_top(c);
    assert forall|k: int| 0 <= k < top.len() implies line_ok(#[trigger] top[k]) by {
        lemma_top_line_ok(c, k);
    }
    lemma_targets_lines_ok(c.targets);
    lemma_actions_lines_ok(c.recovery_actions);
    let all = render_lines_spec(c);
    assert forall|k: int| 0 <= k < all.len() implies line_ok(#[trigger] all[k]) by {
        let tl = render_targets(c.targets);
        if k < top.len() {
            assert(all[k] == top[k]);
        } else if k < top.len() + tl.len() {
            assert(all[k] == tl[k - top.len()]);
        } else {
            assert(all[k] == render_actions(c.recovery_actions)[k - top.len() - tl.len()]);
        }
    }
    assert(top.len() >= 5);
    assert(all.len() >= 5);
}

proof fn lemma_top_line_ok(c: ConfigModel, k: int)
    requires
        0 <= k < render_top(c).len(),
    ensures
        line_ok(render_top(c)[k]),
{
    lemma_literals();
    lemma_classify_kv_str("default_target"@, c.default_target);
    lemma_classify_kv_int("check_interval_sec"@, c.check_interval_sec);
    lemma_classify_kv_int("ping_timeout_ms"@, c.ping_timeout_ms);
    lemma_classify_kv_int("retry_count"@, c.retry_count as u64);
    lemma_classify_kv_bool("notification_enabled"@, c.notification_enabled);
    if c.log_file is Some {
        lemma_classify_kv_str("log_file"@, c.log_file->0);
    }
    if c.notification_command is Some {
        lemma_classify_kv_str("notification_command"@, c.notification_command->0);
    }
    lemma_classify_kv_empty_array("targets"@);
    lemma_classify_kv_empty_array("recovery_actions"@);
}

proof fn lemma_target_block_lines_ok(t: TargetModel, k: int)
    requires
        0 <= k < render_target(t).len(),
    ensures
        line_ok(render_target(t)[k]),
{
    lemma_literals();
    lemma_classify_fixed();
    lemma_classify_kv_str("name"@, t.name);
    lemma_classify_kv_str("address"@, t.address);
    if t.port is Some {
        lemma_classify_kv_int("port"@, t.port->0 as u64);
    }
    if t.timeout_ms is Some {
        lemma_classify_kv_int("timeout_ms"@, t.timeout_ms->0);
    }
    if t.retry_count is Some {
        lemma_classify_kv_int("retry_count"@, t.retry_count->0 as u64);
    }
}

proof fn lemma_targets_lines_ok(ts: Seq<TargetModel>)
    ensures
        forall|k: int|
            0 <= k < render_targets(ts).len() ==> line_ok(#[trigger] render_targets(ts)[k]),
    decreases ts.len(),
{
    if ts.len() > 0 {
        lemma_targets_lines_ok(ts.drop_first());
        let all = render_targets(ts);
        let head = render_target(ts[0]);
        assert forall|k: int| 0 <= k < all.len() implies line_ok(#[trigger] all[k]) by {
            if k < head.len() {
                assert(all[k] == head[k]);
                lemma_target_block_lines_ok(ts[0], k);
            } else {
                assert(all[k] == render_targets(ts.drop_first())[k - head.len()]);
            }
        }
    }
}

proof fn lemma_action_block_lines_ok(a: ActionModel, k: int)
    requires
        0 <= k < render_action(a).len(),
    ensures
        line_ok(render_action(a)[k]),
{
    lemma_literals();
    lemma_classify_fixed();
    lemma_classify_kv_str("name"@, a.name);
    lemma_classify_kv_str("command"@, a.command);
    if a.wait_after_ms is Some {
        lemma_classify_kv_int("wait_after_ms"@, a.wait_after_ms->0);
    }
}

proof fn lemma_actions_lines_ok(acts: Seq<ActionModel>)
    ensures
        forall|k: int|
            0 <= k < render_actions(acts).len() ==> line_ok(#[trigger] render_actions(acts)[k]),
    decreases acts.len(),
{
    if acts.len() > 0 {
        lemma_actions_lines_ok(acts.drop_first());
        let all = render_actions(acts);
        let head = render_action(acts[0]);
        assert forall|k: int| 0 <= k < all.len() implies line_ok(#[trigger] all[k]) by {
            if k < head.len() {
                assert(all[k] == head[k]);
                lemma_action_block_lines_ok(acts[0], k);
            } else {
                assert(all[k] == render_actions(acts.drop_first())[k - head.len()]);
            }
        }
    }
}

/// Law: the configuration format round-trips.  For every configuration,
/// writing it with the renderer and reading the text back yields exactly
/// the configuration that was written — field for field, target for
/// target, action for action.
pub proof fn lemma_load_save_roundtrip(c: ConfigModel)
    ensures
        parse_config_spec(render_config_spec(c)) == Ok::<ConfigModel, ConfigError>(c),
{
    let lines = render_lines_spec(c);
    lemma_render_lines_ok(c);
    lemma_split_join(lines);
    assert(split_lines(render_config_spec(c)) == lines);
    let st0 = init_pstate();
    lemma_parse_top(c, 1);
    let st_top = top_state(c);
    lemma_parse_doc_concat(st0, render_top(c), render_targets(c.targets), 1);
    if c.targets.len() > 0 {
        assert(!st_top.targets_empty);
        lemma_parse_targets(st_top, c.targets, 1 + render_top(c).len() as int);
    } else {
        assert(render_targets(c.targets).len() == 0);
    }
    let st_t = if c.targets.len() > 0 {
        PStateModel {
            section: Section::InTargets,
            targets: st_top.targets + partials_of_targets(c.targets),
            ..st_top
        }
    } else {
        st_top
    };
    assert(parse_doc(st0, render_top(c) + render_targets(c.targets), 1) == Ok::<
        PStateModel,
        ConfigError,
    >(st_t));
    lemma_parse_doc_concat(
        st0,
        render_top(c) + render_targets(c.targets),
        render_actions(c.recovery_actions),
        1,
    );
    if c.recovery_actions.len() > 0 {
        assert(!st_t.actions_empty);
        lemma_parse_actions(
            st_t,
            c.recovery_actions,
            1 + (render_top(c) + render_targets(c.targets)).len() as int,
        );
    } else {
        assert(render_actions(c.recovery_actions).len() == 0);
    }
    let st_a = if c.recovery_actions.len() > 0 {
        PStateModel {
            section: Section::InActions,
            actions: st_t.actions + partials_of_actions(c.recovery_actions),
            ..st_t
        }
    } else {
        st_t
    };
    assert(render_top(c) + render_targets(c.targets) + render_actions(c.recovery_actions)
        =~= lines);
    assert(parse_doc(st0, lines, 1) == Ok::<PStateModel, ConfigError>(st_a));
    assert(st_a.targets =~= partials_of_targets(c.targets));
    assert(st_a.actions =~= partials_of_actions(c.recovery_actions));
    lemma_finalize_partials_targets(c.targets);
    lemma_finalize_partials_actions(c.recovery_actions);
    assert(finalize_targets(st_a.targets) == Ok::<Seq<TargetModel>, ConfigError>(c.targets));
    assert(finalize_actions(st_a.actions) == Ok::<Seq<ActionModel>, ConfigError>(
        c.recovery_actions,
    ));
    assert(finalize_spec(st_a) == Ok::<ConfigModel, ConfigError>(c)) by {
        assert(st_a.targets_empty == (c.targets.len() == 0));
        assert(st_a.actions_empty == (c.recovery_actions.len() == 0));
        let out = finalize_spec(st_a)->Ok_0;
        assert(out =~~= c);
    }
}

proof fn lemma_finalize_partials_targets(ts: Seq<TargetModel>)
    ensures
        finalize_targets(partials_of_targets(ts)) == Ok::<Seq<TargetModel>, ConfigError>(ts),
{
    let ps = partials_of_targets(ts);
    assert forall|k: int| 0 <= k < ps.len() implies #[trigger] finalize_target(ps[k]) == Ok::<
        TargetModel,
        ConfigError,
    >(ts[k]) by {
        assert(finalize_target(ps[k])->Ok_0 =~~= ts[k]);
    }
    crate::config_text::lemma_finalize_targets_ok(ps, ts);
}

proof fn lemma_finalize_partials_actions(acts: Seq<ActionModel>)
    ensures
        finalize_actions(partials_of_actions(acts)) == Ok::<Seq<ActionModel>, ConfigError>(acts),
{
    let ps = partials_of_actions(acts);
    assert forall|k: int| 0 <= k < ps.len() implies #[trigger] finalize_action(ps[k]) == Ok::<
        ActionModel,
        ConfigError,
    >(acts[k]) by {
        assert(finalize_action(ps[k])->Ok_0 =~~= acts[k]);
    }
    crate::config_text::lemma_finalize_actions_ok(ps, acts);
}

} // verus!
