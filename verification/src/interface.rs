//! The network interface of WARP.
use vstd::prelude::*;

use crate::config::AppConfig;
use crate::text;

verus! {

/// The file that is there where an interface of that name is.
pub open spec fn interface_file(name: Seq<char>) -> Seq<char> {
    "/sys/class/net/"@ + name
}

/// The file that is there where an interface of that name is.
pub fn interface_path(name: &str) -> (r: String)
    ensures
        r@ == interface_file(name@),
{
    let mut path: String = "/sys/class/net/".to_owned();
    path.append(name);
    path
}

/// The name is that of WARP's interface, in any case of its letters.
pub open spec fn is_exact(name: Seq<char>) -> bool {
    text::lower_text(name) == "warp"@
}

/// The name holds that of WARP's interface, in any case of its letters.
pub open spec fn is_partial(name: Seq<char>) -> bool {
    text::contains_text(text::lower_text(name), "warp"@)
}

/// The name is wanted: as a whole (`exact`), or in part.
pub open spec fn wanted(name: Seq<char>, exact: bool) -> bool {
    if exact {
        is_exact(name)
    } else {
        is_partial(name)
    }
}

/// The first name, in the order of texts, that is wanted.
pub open spec fn is_first_wanted(names: Seq<Seq<char>>, exact: bool, name: Seq<char>) -> bool {
    &&& names.contains(name)
    &&& wanted(name, exact)
    &&& forall|i: int|
        0 <= i < names.len() && wanted(#[trigger] names[i], exact) ==> !text::text_less(
            names[i],
            name,
        )
}

/// No name is wanted.
pub open spec fn none_wanted(names: Seq<Seq<char>>, exact: bool) -> bool {
    forall|i: int| 0 <= i < names.len() ==> !wanted(#[trigger] names[i], exact)
}

/// `found` is WARP's interface among `names`: the first name that is WARP's own; else the first
/// that holds WARP's; else there is none.
pub open spec fn picks(names: Seq<Seq<char>>, found: Option<Seq<char>>) -> bool {
    match found {
        Some(name) => {
            ||| is_first_wanted(names, true, name)
            ||| none_wanted(names, true) && is_first_wanted(names, false, name)
        },
        None => none_wanted(names, true) && none_wanted(names, false),
    }
}

fn is_wanted(name: &str, exact: bool) -> (r: bool)
    ensures
        r == wanted(name@, exact),
{
    let lowered: Vec<char> = text::lower_chars(name);
    let warp: Vec<char> = text::chars_of("warp");
    proof {
        let s = text::lower_text(name@);
        text::lemma_find_text(s, "warp"@, 0);
        assert(s.subrange(0, s.len() as int) =~= s);
        if s == "warp"@ {
            assert(text::occurs_at(s, "warp"@, 0));
        }
    }
    match text::find(&lowered, &warp, 0) {
        Some(_) => !exact || lowered.len() == warp.len(),
        None => false,
    }
}

/// Finds the first name, in the order of texts, that is wanted.
fn first_wanted(names: &Vec<String>, exact: bool) -> (r: Option<String>)
    ensures
        match r {
            Some(name) => is_first_wanted(text::texts(names@), exact, name@),
            None => none_wanted(text::texts(names@), exact),
        },
{
    let ghost all = text::texts(names@);
    let mut best: Option<usize> = None;
    let mut i: usize = 0;
    while i < names.len()
        invariant
            i <= names@.len(),
            all == text::texts(names@),
            match best {
                Some(b) => {
                    &&& b < i
                    &&& wanted(all[b as int], exact)
                    &&& forall|k: int|
                        0 <= k < i && wanted(#[trigger] all[k], exact) ==> !text::text_less(
                            all[k],
                            all[b as int],
                        )
                },
                None => forall|k: int| 0 <= k < i ==> !wanted(#[trigger] all[k], exact),
            },
        decreases names.len() - i,
    {
        assert(all[i as int] == names@[i as int]@);
        if is_wanted(names[i].as_str(), exact) {
            match best {
                None => {
                    proof {
                        text::lemma_text_order(all[i as int], all[i as int]);
                    }
                    best = Some(i);
                },
                Some(b) => {
                    assert(all[b as int] == names@[b as int]@);
                    if text::less(names[i].as_str(), names[b].as_str()) {
                        assert forall|k: int|
                            0 <= k < i + 1 && wanted(
                                #[trigger] all[k],
                                exact,
                            ) implies !text::text_less(all[k], all[i as int]) by {
                            text::lemma_text_order(all[i as int], all[i as int]);
                            if k < i && text::text_less(all[k], all[i as int]) {
                                text::lemma_text_order_transitive(
                                    all[k],
                                    all[i as int],
                                    all[b as int],
                                );
                            }
                        }
                        best = Some(i);
                    }
                },
            }
        }
        i = i + 1;
    }
    match best {
        Some(b) => {
            assert(all[b as int] == names@[b as int]@);
            assert(all.contains(all[b as int]));
            Some(names[b].clone())
        },
        None => None,
    }
}

/// Picks WARP's interface from the names of all.
pub fn pick_warp_interface(names: &Vec<String>) -> (r: Option<String>)
    ensures
        picks(text::texts(names@), text::opt_text(r)),
{
    match first_wanted(names, true) {
        Some(name) => Some(name),
        None => first_wanted(names, false),
    }
}

/// Finds WARP's interface: the one that the user names, where it exists; else the one that is
/// picked from the names of all. `configured_exists` tells whether the interface that the user
/// names exists, and `listing` the names of all, or why they are not known.
pub fn find_warp_interface<E>(
    config: &AppConfig,
    configured_exists: bool,
    listing: Result<Vec<String>, E>,
) -> (r: Result<Option<String>, E>)
    ensures
        if config@.monitor.interface_name is Some && configured_exists {
            r is Ok && text::opt_text(r->Ok_0) == config@.monitor.interface_name
        } else {
            match listing {
                Ok(names) => r is Ok && picks(text::texts(names@), text::opt_text(r->Ok_0)),
                Err(e) => r == Err::<Option<String>, E>(e),
            }
        },
{
    if let Some(name) = &config.monitor.interface_name {
        if configured_exists {
            return Ok(Some(name.clone()));
        }
    }
    match listing {
        Ok(names) => Ok(pick_warp_interface(&names)),
        Err(e) => Err(e),
    }
}

/// What is logged where there is no interface of WARP.
pub fn missing_interface_log() -> (r: String)
    ensures
        r@ == "未找到名称包含 `warp` 的网卡（不区分大小写）"@,
{
    "未找到名称包含 `warp` 的网卡（不区分大小写）".to_owned()
}

/// The interface that was found, or the text that tells a user that there is none.
pub fn resolve_interface_or_fail(found: Option<String>) -> (r: Result<String, String>)
    ensures
        match found {
            Some(name) => r == Ok::<String, String>(name),
            None => r is Err && r->Err_0@
                == "请确认 WARP 已连接，或在 `monitor.interface_name` 手动指定网卡名"@,
        },
{
    match found {
        Some(name) => Ok(name),
        None => Err(
            "请确认 WARP 已连接，或在 `monitor.interface_name` 手动指定网卡名".to_owned(),
        ),
    }
}

// ---------------------------------------------------------------------------------------------
// Laws

proof fn lemma_exact_is_partial(name: Seq<char>)
    requires
        is_exact(name),
    ensures
        is_partial(name),
{
    let s = text::lower_text(name);
    assert(s.subrange(0, s.len() as int) =~= s);
    assert(text::occurs_at(s, "warp"@, 0));
}

/// What is picked is one of the names, and holds WARP's name in any case of its letters; something
/// is picked wherever such a name is there.
pub proof fn picked_holds_warp(names: Seq<Seq<char>>, found: Option<Seq<char>>)
    requires
        picks(names, found),
    ensures
        found matches Some(name) ==> names.contains(name) && is_partial(name),
        found is None <==> forall|i: int| 0 <= i < names.len() ==> !is_partial(#[trigger] names[i]),
{
    if let Some(name) = found {
        if is_exact(name) {
            lemma_exact_is_partial(name);
        }
        let i = choose|i: int| 0 <= i < names.len() && names[i] == name;
        assert(is_partial(names[i]));
    } else {
        assert forall|i: int| 0 <= i < names.len() implies !is_partial(#[trigger] names[i]) by {
            assert(!wanted(names[i], false));
        }
    }
}

/// A name that is WARP's own is picked before any that only holds it.
pub proof fn exact_name_comes_first(names: Seq<Seq<char>>, found: Option<Seq<char>>, i: int)
    requires
        picks(names, found),
        0 <= i < names.len(),
        is_exact(names[i]),
    ensures
        found is Some,
        is_exact(found->0),
{
    assert(wanted(names[i], true));
}

/// What is picked depends on which names there are, not on the order in which they are listed.
pub proof fn pick_ignores_the_order(
    names: Seq<Seq<char>>,
    others: Seq<Seq<char>>,
    found: Option<Seq<char>>,
    other: Option<Seq<char>>,
)
    requires
        forall|name: Seq<char>| names.contains(name) <==> others.contains(name),
        picks(names, found),
        picks(others, other),
    ensures
        found == other,
{
    lemma_none_wanted_same(names, others, true);
    lemma_none_wanted_same(names, others, false);
    if found is Some && other is Some {
        let (a, b) = (found->0, other->0);
        if is_first_wanted(names, true, a) {
            lemma_first_is_unique(names, others, true, a, b);
        } else {
            lemma_first_is_unique(names, others, false, a, b);
        }
    }
}

proof fn lemma_none_wanted_same(names: Seq<Seq<char>>, others: Seq<Seq<char>>, exact: bool)
    requires
        forall|name: Seq<char>| names.contains(name) <==> others.contains(name),
    ensures
        none_wanted(names, exact) <==> none_wanted(others, exact),
        forall|a: Seq<char>| is_first_wanted(names, exact, a) ==> !none_wanted(names, exact),
        forall|a: Seq<char>| is_first_wanted(others, exact, a) ==> !none_wanted(others, exact),
{
    if none_wanted(names, exact) {
        assert forall|i: int| 0 <= i < others.len() implies !wanted(
            #[trigger] others[i],
            exact,
        ) by {
            assert(others.contains(others[i]));
            let k = choose|k: int| 0 <= k < names.len() && names[k] == others[i];
            assert(!wanted(names[k], exact));
        }
    }
    if none_wanted(others, exact) {
        assert forall|i: int| 0 <= i < names.len() implies !wanted(#[trigger] names[i], exact) by {
            assert(names.contains(names[i]));
            let k = choose|k: int| 0 <= k < others.len() && others[k] == names[i];
            assert(!wanted(others[k], exact));
        }
    }
}

proof fn lemma_first_is_unique(
    names: Seq<Seq<char>>,
    others: Seq<Seq<char>>,
    exact: bool,
    a: Seq<char>,
    b: Seq<char>,
)
    requires
        forall|name: Seq<char>| names.contains(name) <==> others.contains(name),
        is_first_wanted(names, exact, a),
        is_first_wanted(others, exact, b),
    ensures
        a == b,
{
    assert(others.contains(a));
    assert(names.contains(b));
    let i = choose|i: int| 0 <= i < others.len() && others[i] == a;
    let k = choose|k: int| 0 <= k < names.len() && names[k] == b;
    assert(wanted(others[i], exact));
    assert(wanted(names[k], exact));
    text::lemma_text_order(a, b);
}

/// A name is WARP's own exactly where it is made of the four letters, each in either case, and
/// holds WARP's exactly where, lowered, it is put together around them.
pub proof fn warp_goes_by_its_letters(name: Seq<char>)
    ensures
        is_exact(name) <==> {
            &&& name.len() == 4
            &&& name[0] == 'w' || name[0] == 'W'
            &&& name[1] == 'a' || name[1] == 'A'
            &&& name[2] == 'r' || name[2] == 'R'
            &&& name[3] == 'p' || name[3] == 'P'
        },
        is_partial(name) <==> exists|a: Seq<char>, b: Seq<char>|
            text::lower_text(name) == #[trigger] (a + "warp"@ + b),
{
    reveal_strlit("warp");
    let l = text::lower_text(name);
    let warp = "warp"@;
    assert(forall|i: int| 0 <= i < name.len() ==> #[trigger] l[i] == text::ascii_lower(name[i]));
    if is_exact(name) {
        assert(l[0] == warp[0] && l[1] == warp[1] && l[2] == warp[2] && l[3] == warp[3]);
    } else if name.len() == 4 {
        assert(!(l =~= warp));
        assert(!(l[0] == warp[0] && l[1] == warp[1] && l[2] == warp[2] && l[3] == warp[3]));
    }
    if is_partial(name) {
        text::text_within_parts_the_rest(l, warp);
    }
    assert forall|a: Seq<char>, b: Seq<char>|
        l == #[trigger] (a + warp + b) implies text::contains_text(l, warp) by {
        text::text_stands_where_it_was_put(a, warp, b);
    }
}

/// No name that could have been picked stands before the one that is: none that is WARP's own,
/// and, where there is no such name, none that holds WARP's.
pub proof fn first_name_is_picked(names: Seq<Seq<char>>, name: Seq<char>, i: int)
    requires
        picks(names, Some(name)),
        0 <= i < names.len(),
    ensures
        names.contains(name),
        is_exact(names[i]) ==> is_exact(name) && !text::text_less(names[i], name),
        is_partial(names[i]) && !is_exact(name) ==> !text::text_less(names[i], name),
        is_exact(name) || is_partial(name),
{
    if is_exact(names[i]) {
        assert(wanted(names[i], true));
    }
    if is_partial(names[i]) {
        assert(wanted(names[i], false));
    }
}

/// The file of an interface is named by it, as it is.
pub proof fn interface_file_is_named_by_it(name: Seq<char>)
    ensures
        interface_file(name) == "/sys/class/net/"@ + name,
{
}

} // verus!
