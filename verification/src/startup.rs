//! Starting with Windows.
//!
//! A Run entry opens the window in whichever session logs on, and a leftover
//! compatibility layer that asks for administrator rights would have that
//! entry silently skipped.

use vstd::prelude::*;

use crate::text::{chars_of, join_texts, lower_chars, same, split_words, string_of, texts};

verus! {

/// The value of the Run entry: the program's path, quoted, or a path with a
/// space in it is read as a command followed by arguments.
pub fn run_value(exe: &str) -> (r: String)
    ensures
        r@ == "\""@ + exe@ + "\""@,
{
    let mut s = "\"".to_owned();
    s.append(exe);
    s.append("\"");
    s
}

/// What the Run entry is switched to, given whether it is there.
pub fn toggle(enabled: bool) -> (r: bool)
    ensures
        r == !enabled,
{
    !enabled
}

/// Whether removing the Run entry worked, by the code that came back. Already
/// absent is success, not failure.
pub fn was_removed(code: u32) -> (r: bool)
    ensures
        r == (code == 0 || code == 2),
{
    code == 0 || code == 2
}

/// Whether a flag of a compatibility layer asks for administrator rights.
pub open spec fn elevates(flag: Seq<char>) -> bool {
    crate::text::lowered(flag) == "runasadmin"@
}

/// The flags of a layer, leaving out the mark in front of them.
pub open spec fn flags(tokens: Seq<Seq<char>>) -> Seq<Seq<char>>
    decreases tokens.len(),
{
    if tokens.len() == 0 {
        Seq::empty()
    } else if tokens.last() == "~"@ {
        flags(tokens.drop_last())
    } else {
        flags(tokens.drop_last()).push(tokens.last())
    }
}

/// Those of the flags that do not ask for administrator rights.
pub open spec fn harmless(tokens: Seq<Seq<char>>) -> Seq<Seq<char>>
    decreases tokens.len(),
{
    if tokens.len() == 0 {
        Seq::empty()
    } else if elevates(tokens.last()) {
        harmless(tokens.drop_last())
    } else {
        harmless(tokens.drop_last()).push(tokens.last())
    }
}

/// What becomes of a compatibility layer.
#[derive(Debug)]
pub enum Layer {
    /// It asks for nothing we mind.
    Leave,
    /// Nothing else was in it.
    Remove,
    /// The rest of it stays.
    Keep(String),
}

/// What becomes of a compatibility layer. Only the elevation flag goes;
/// anything else in it is somebody's own choice.
pub open spec fn cleared(value: Seq<char>) -> Option<Option<Seq<char>>> {
    let all = flags(crate::text::words(value));
    let kept = harmless(all);
    if kept.len() == all.len() {
        None
    } else if kept.len() == 0 {
        Some(None)
    } else {
        Some(Some("~ "@ + crate::text::joined(kept, " "@)))
    }
}

/// What becomes of a compatibility layer on our own executable.
pub fn clear_runasadmin_layer(value: &str) -> (r: Layer)
    ensures
        match r {
            Layer::Leave => cleared(value@) is None,
            Layer::Remove => cleared(value@) == Some(None::<Seq<char>>),
            Layer::Keep(rest) => cleared(value@) == Some(Some(rest@)),
        },
{
    let tokens = split_words(&chars_of(value));
    let ghost words = crate::text::words(value@);
    let mut count: usize = 0;
    let mut kept: Vec<String> = Vec::new();
    let mut i: usize = 0;
    proof {
        assert(words.take(0) =~= Seq::empty());
        assert(texts(kept@) =~= Seq::empty());
    }
    while i < tokens.len()
        invariant
            i <= tokens@.len(),
            words == crate::text::runs(tokens@),
            count <= i,
            kept@.len() <= count,
            count == flags(words.take(i as int)).len(),
            texts(kept@) == harmless(flags(words.take(i as int))),
        decreases tokens@.len() - i,
    {
        let token = string_of(&tokens[i]);
        let low = string_of(&lower_chars(&tokens[i]));
        let ghost before = kept@;
        proof {
            let next = words.take(i + 1);
            assert(next.drop_last() =~= words.take(i as int));
            assert(next.last() == token@);
        }
        if !same(token.as_str(), "~") {
            count += 1;
            proof {
                let all = flags(words.take(i as int));
                assert(all.push(token@).drop_last() =~= all);
            }
            if !same(low.as_str(), "runasadmin") {
                kept.push(token);
                proof {
                    assert(texts(kept@) =~= texts(before).push(token@));
                }
            }
        }
        i += 1;
    }
    proof {
        assert(words.take(words.len() as int) =~= words);
        assert(texts(kept@).len() == kept@.len());
    }
    if kept.len() == count {
        Layer::Leave
    } else if kept.len() == 0 {
        Layer::Remove
    } else {
        let mut rest = "~ ".to_owned();
        rest.append(join_texts(&kept, " ").as_str());
        Layer::Keep(rest)
    }
}

/// A layer that has been cleared asks for no administrator rights, and clearing
/// keeps every other flag, in order.
pub proof fn only_the_elevation_flag_goes(tokens: Seq<Seq<char>>)
    ensures
        forall|i: int|
            0 <= i < harmless(tokens).len() ==> !elevates(#[trigger] harmless(tokens)[i]),
        (forall|i: int| 0 <= i < tokens.len() ==> !elevates(#[trigger] tokens[i])) ==> harmless(
            tokens,
        ) == tokens,
        harmless(harmless(tokens)) == harmless(tokens),
    decreases tokens.len(),
{
    if tokens.len() > 0 {
        let rest = tokens.drop_last();
        only_the_elevation_flag_goes(rest);
        if forall|i: int| 0 <= i < tokens.len() ==> !elevates(#[trigger] tokens[i]) {
            assert forall|i: int| 0 <= i < rest.len() implies !elevates(#[trigger] rest[i]) by {
                assert(rest[i] == tokens[i]);
            }
            assert(!elevates(tokens[tokens.len() - 1]));
            assert(harmless(rest).push(tokens.last()) =~= tokens);
        }
        if !elevates(tokens.last()) {
            let kept = harmless(rest).push(tokens.last());
            assert(kept.drop_last() =~= harmless(rest));
        }
    }
}

proof fn which_flags_stay(tokens: Seq<Seq<char>>, t: Seq<char>)
    ensures
        flags(tokens).contains(t) <==> tokens.contains(t) && t != "~"@,
        harmless(tokens).contains(t) <==> tokens.contains(t) && crate::text::lowered(t)
            != "runasadmin"@,
        harmless(tokens).len() <= tokens.len(),
        harmless(tokens).len() == tokens.len() <==> forall|i: int|
            0 <= i < tokens.len() ==> crate::text::lowered(#[trigger] tokens[i])
                != "runasadmin"@,
    decreases tokens.len(),
{
    if tokens.len() > 0 {
        let rest = tokens.drop_last();
        let last = tokens.last();
        which_flags_stay(rest, t);
        assert(tokens =~= rest.push(last));
        if rest.contains(t) {
            let i = choose|i: int| 0 <= i < rest.len() && rest[i] == t;
            assert(tokens[i] == t);
        }
        if tokens.contains(t) {
            let i = choose|i: int| 0 <= i < tokens.len() && tokens[i] == t;
            if i < rest.len() {
                assert(rest[i] == t);
            }
        }
        if last == t {
            assert(tokens[tokens.len() - 1] == t);
        }
        let kept = flags(rest).push(last);
        assert(kept[flags(rest).len() as int] == last);
        assert forall|i: int| 0 <= i < flags(rest).len() implies kept[i] == #[trigger] flags(
            rest,
        )[i] by {}
        let safe = harmless(rest).push(last);
        assert(safe[harmless(rest).len() as int] == last);
        assert forall|i: int| 0 <= i < harmless(rest).len() implies safe[i] == #[trigger] harmless(
            rest,
        )[i] by {}
        if harmless(tokens).len() == tokens.len() {
            assert forall|i: int| 0 <= i < tokens.len() implies crate::text::lowered(
                #[trigger] tokens[i],
            ) != "runasadmin"@ by {
                if i < rest.len() {
                    assert(tokens[i] == rest[i]);
                }
            }
        }
        if forall|i: int|
            0 <= i < tokens.len() ==> crate::text::lowered(#[trigger] tokens[i])
                != "runasadmin"@ {
            assert(crate::text::lowered(tokens[tokens.len() - 1]) != "runasadmin"@);
            assert forall|i: int| 0 <= i < rest.len() implies crate::text::lowered(
                #[trigger] rest[i],
            ) != "runasadmin"@ by {
                assert(tokens[i] == rest[i]);
            }
        }
    }
}

/// A layer is left alone exactly when no word of it but the mark asks for
/// administrator rights, in any case; it goes when nothing else is in it, and
/// otherwise the other words stay.
pub proof fn only_a_layer_that_elevates_is_touched(value: Seq<char>, t: Seq<char>)
    ensures
        ({
            let tokens = crate::text::words(value);
            &&& cleared(value) is None <==> forall|i: int|
                0 <= i < tokens.len() && tokens[i] != "~"@ ==> crate::text::lowered(
                    #[trigger] tokens[i],
                ) != "runasadmin"@
            &&& cleared(value) == Some(None::<Seq<char>>) && tokens.contains(t) && t != "~"@
                ==> crate::text::lowered(t) == "runasadmin"@
            &&& cleared(value) matches Some(Some(rest)) ==> exists|kept: Seq<Seq<char>>|
                {
                    &&& kept.len() > 0
                    &&& rest == "~ "@ + #[trigger] crate::text::joined(kept, " "@)
                    &&& kept.contains(t) <==> tokens.contains(t) && t != "~"@
                        && crate::text::lowered(t) != "runasadmin"@
                }
        }),
{
    let tokens = crate::text::words(value);
    let all = flags(tokens);
    let kept = harmless(all);
    which_flags_stay(tokens, t);
    which_flags_stay(all, t);
    if cleared(value) is None {
        assert forall|i: int| 0 <= i < tokens.len() && tokens[i] != "~"@ implies crate::text::lowered(
            #[trigger] tokens[i],
        ) != "runasadmin"@ by {
            which_flags_stay(tokens, tokens[i]);
            assert(tokens.contains(tokens[i]));
            let k = choose|k: int| 0 <= k < all.len() && all[k] == tokens[i];
            assert(crate::text::lowered(all[k]) != "runasadmin"@);
        }
    }
    if forall|i: int|
        0 <= i < tokens.len() && tokens[i] != "~"@ ==> crate::text::lowered(#[trigger] tokens[i])
            != "runasadmin"@ {
        assert forall|k: int| 0 <= k < all.len() implies crate::text::lowered(#[trigger] all[k])
            != "runasadmin"@ by {
            which_flags_stay(tokens, all[k]);
            assert(all.contains(all[k]));
            let i = choose|i: int| 0 <= i < tokens.len() && tokens[i] == all[k];
            assert(crate::text::lowered(tokens[i]) != "runasadmin"@);
        }
    }
    if cleared(value) == Some(None::<Seq<char>>) && tokens.contains(t) && t != "~"@ {
        if crate::text::lowered(t) != "runasadmin"@ {
            assert(kept.contains(t));
        }
    }
    match cleared(value) {
        Some(Some(rest)) => {
            assert(rest == "~ "@ + crate::text::joined(kept, " "@));
        },
        _ => {},
    }
}

} // verus!
