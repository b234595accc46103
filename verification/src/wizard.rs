//! Hotkey presets and validation for the first-run wizard. The wizard's
//! screens belong to the caller; the choices they offer are decided here.

use vstd::prelude::*;
use crate::strings::{chars_of, string_from_chars, seq_eq_str, push_str_chars, push_tail};
use crate::config::HotkeyConfig;

verus! {

/// The hotkey preset a wizard index selects; anything out of range falls
/// back to the default.
pub open spec fn hotkey_choice(index: int) -> (Seq<char>, Seq<char>) {
    if index == 0 {
        ("Alt"@, "Space"@)
    } else if index == 1 {
        ("Ctrl"@, "Space"@)
    } else if index == 2 {
        ("Win"@, "Space"@)
    } else if index == 3 {
        ("Ctrl+Shift"@, "Space"@)
    } else {
        ("Alt"@, "Space"@)
    }
}

/// The modifier and key strings of a preset index.
pub fn get_hotkey_from_index(index: usize) -> (r: (&'static str, &'static str))
    ensures
        (r.0@, r.1@) == hotkey_choice(index as int),
{
    match index {
        0 => ("Alt", "Space"),
        1 => ("Ctrl", "Space"),
        2 => ("Win", "Space"),
        3 => ("Ctrl+Shift", "Space"),
        _ => ("Alt", "Space"),
    }
}

/// Modifier names joined with `+`, the form the presets are written in.
pub open spec fn join_plus(ms: Seq<String>) -> Seq<char>
    decreases ms.len(),
{
    if ms.len() == 0 {
        Seq::empty()
    } else if ms.len() == 1 {
        ms[0]@
    } else {
        ms[0]@ + seq!['+'] + join_plus(ms.skip(1))
    }
}

proof fn lemma_join_push(s: Seq<String>, i: int)
    requires
        0 <= i < s.len(),
    ensures
        join_plus(s.take(i + 1)) == if i == 0 {
            s[0]@
        } else {
            join_plus(s.take(i)) + seq!['+'] + s[i]@
        },
    decreases i,
{
    let t = s.take(i + 1);
    if i == 0 {
        assert(t.len() == 1 && t[0] == s[0]);
    } else {
        assert(t[0] == s[0]);
        assert(t.skip(1) =~= s.skip(1).take(i));
        lemma_join_push(s.skip(1), i - 1);
        if i == 1 {
            assert(s.skip(1).take(1)[0] == s[1]);
            assert(join_plus(s.skip(1).take(1)) == s[1]@);
            assert(s.take(1).len() == 1 && s.take(1)[0] == s[0]);
            assert(join_plus(s.take(1)) == s[0]@);
        } else {
            assert(s.skip(1)[i - 1] == s[i]);
            assert(s.take(i)[0] == s[0]);
            assert(s.take(i).skip(1) =~= s.skip(1).take(i - 1));
            assert(join_plus(s.take(i)) == s[0]@ + seq!['+'] + join_plus(s.skip(1).take(i - 1)));
            assert(s[0]@ + seq!['+'] + (join_plus(s.skip(1).take(i - 1)) + seq!['+'] + s[i]@) =~= (
            s[0]@ + seq!['+'] + join_plus(s.skip(1).take(i - 1))) + seq!['+'] + s[i]@);
        }
    }
}

/// Join modifier names with `+`.
fn join_plus_exec(ms: &Vec<String>) -> (r: Vec<char>)
    ensures
        r@ == join_plus(ms@),
{
    let mut r: Vec<char> = Vec::new();
    let mut i: usize = 0;
    proof {
        assert(ms@.take(0) =~= Seq::<String>::empty());
    }
    while i < ms.len()
        invariant
            i <= ms@.len(),
            r@ == join_plus(ms@.take(i as int)),
        decreases ms@.len() - i,
    {
        if i > 0 {
            r.push('+');
        }
        push_str_chars(&mut r, ms[i].as_str());
        proof {
            lemma_join_push(ms@, i as int);
        }
        i += 1;
    }
    proof {
        assert(ms@.take(ms@.len() as int) =~= ms@);
    }
    r
}

/// The preset index a configured hotkey corresponds to; unknown
/// combinations map to the default preset.
pub open spec fn hotkey_index_spec(mods: Seq<String>, key: Seq<char>) -> int {
    let m = join_plus(mods);
    if m == "Alt"@ && key == "Space"@ {
        0
    } else if m == "Ctrl"@ && key == "Space"@ {
        1
    } else if m == "Win"@ && key == "Space"@ {
        2
    } else if m == "Ctrl+Shift"@ && key == "Space"@ {
        3
    } else {
        0
    }
}

/// The wizard's initial selection for a configured hotkey.
pub fn get_hotkey_index_from_config(hotkey: &HotkeyConfig) -> (r: usize)
    ensures
        r == hotkey_index_spec(hotkey.modifiers@, hotkey.key@),
{
    let joined = join_plus_exec(&hotkey.modifiers);
    let key = chars_of(hotkey.key.as_str());
    let space = seq_eq_str(&key, "Space");
    if seq_eq_str(&joined, "Alt") && space {
        0
    } else if seq_eq_str(&joined, "Ctrl") && space {
        1
    } else if seq_eq_str(&joined, "Win") && space {
        2
    } else if seq_eq_str(&joined, "Ctrl+Shift") && space {
        3
    } else {
        0
    }
}

/// Write the preset selected by `index` into the hotkey configuration.
pub fn apply_hotkey_selection(hotkey: &mut HotkeyConfig, index: usize)
    ensures
        final(hotkey).key@ == "Space"@,
        index == 3 ==> final(hotkey).modifiers@.len() == 2 && final(hotkey).modifiers@[0]@
            == "Ctrl"@ && final(hotkey).modifiers@[1]@ == "Shift"@,
        index == 1 ==> final(hotkey).modifiers@.len() == 1 && final(hotkey).modifiers@[0]@
            == "Ctrl"@,
        index == 2 ==> final(hotkey).modifiers@.len() == 1 && final(hotkey).modifiers@[0]@
            == "Win"@,
        (index == 0 || index > 3) ==> final(hotkey).modifiers@.len() == 1
            && final(hotkey).modifiers@[0]@ == "Alt"@,
{
    let mut mods: Vec<String> = Vec::new();
    if index == 3 {
        mods.push("Ctrl".to_owned());
        mods.push("Shift".to_owned());
    } else if index == 1 {
        mods.push("Ctrl".to_owned());
    } else if index == 2 {
        mods.push("Win".to_owned());
    } else {
        mods.push("Alt".to_owned());
    }
    hotkey.modifiers = mods;
    hotkey.key = "Space".to_owned();
}

/// The hotkeys Windows reserves for itself.
pub open spec fn reserved_pair(m: Seq<char>, k: Seq<char>) -> bool {
    (m == "Win"@ && k == "L"@) || (m == "Win"@ && k == "D"@) || (m == "Ctrl+Alt"@ && k
        == "Delete"@) || (m == "Alt"@ && k == "F4"@) || (m == "Win"@ && k == "R"@) || (m == "Win"@
        && k == "E"@)
}

/// Reject a hotkey that Windows reserves; anything else is accepted.
pub fn validate_hotkey(modifiers: &Vec<String>, key: &str) -> (r: Result<(), String>)
    ensures
        r is Err <==> reserved_pair(join_plus(modifiers@), key@),
        r is Err ==> r->Err_0@ == "Hotkey "@ + join_plus(modifiers@) + "+"@ + key@
            + " is reserved by Windows"@,
{
    let joined = join_plus_exec(&modifiers);
    let kc = chars_of(key);
    let win = seq_eq_str(&joined, "Win");
    let reserved = (win && seq_eq_str(&kc, "L")) || (win && seq_eq_str(&kc, "D")) || (seq_eq_str(
        &joined,
        "Ctrl+Alt",
    ) && seq_eq_str(&kc, "Delete")) || (seq_eq_str(&joined, "Alt") && seq_eq_str(&kc, "F4")) || (win
        && seq_eq_str(&kc, "R")) || (win && seq_eq_str(&kc, "E"));
    if reserved {
        let mut msg: Vec<char> = Vec::new();
        push_str_chars(&mut msg, "Hotkey ");
        push_tail(&mut msg, &joined, 0);
        push_str_chars(&mut msg, "+");
        push_str_chars(&mut msg, key);
        push_str_chars(&mut msg, " is reserved by Windows");
        proof {
            assert(joined@.skip(0) =~= joined@);
            assert(msg@ =~= "Hotkey "@ + join_plus(modifiers@) + "+"@ + key@
                + " is reserved by Windows"@);
        }
        Err(string_from_chars(&msg))
    } else {
        Ok(())
    }
}

} // verus!
