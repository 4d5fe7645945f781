//! Change notification: the blocking notification command is issued on
//! a dedicated connection, and its response lists the subsystems that
//! changed, one `changed: <name>` property per subsystem. A fresh
//! subscriber is first told that every watched subsystem may have
//! changed, so it can resynchronize before the first real change.

use vstd::prelude::*;
use vstd::string::*;
use crate::codec::str_eq;
use crate::result::{strings_view, CommandResult};

verus! {

/// The characters of the notification command's name, with the space
/// before its subsystem arguments.
pub open spec fn idle_prefix() -> Seq<char> {
    seq!['i', 'd', 'l', 'e', ' ']
}

/// The key under which the daemon reports a changed subsystem.
pub open spec fn changed_key() -> Seq<char> {
    seq!['c', 'h', 'a', 'n', 'g', 'e', 'd']
}

/// The words joined by single spaces.
pub open spec fn joined(words: Seq<Seq<char>>) -> Seq<char>
    decreases words.len(),
{
    if words.len() == 0 {
        Seq::empty()
    } else if words.len() == 1 {
        words.last()
    } else {
        joined(words.drop_last()) + seq![' '] + words.last()
    }
}

/// The values of the `changed` properties, in arrival order.
pub open spec fn changed_of(props: Seq<(Seq<char>, Seq<char>)>) -> Seq<Seq<char>>
    decreases props.len(),
{
    if props.len() == 0 {
        Seq::empty()
    } else {
        changed_of(props.drop_last()) + (if props.last().0 == changed_key() {
            seq![props.last().1]
        } else {
            Seq::empty()
        })
    }
}

/// Builds the blocking notification command for the given subsystems.
pub fn idle_command(systems: &Vec<String>) -> (r: String)
    ensures
        r@ == idle_prefix() + joined(strings_view(systems@)),
{
    let ghost all = strings_view(systems@);
    let mut out = String::from_str("idle ");
    proof {
        reveal_strlit("idle ");
        assert(out@ =~= idle_prefix());
        assert(joined(all.take(0)) =~= Seq::<char>::empty());
        assert(out@ =~= idle_prefix() + joined(all.take(0)));
    }
    let mut i: usize = 0;
    while i < systems.len()
        invariant
            i <= systems.len(),
            all == strings_view(systems@),
            out@ == idle_prefix() + joined(all.take(i as int)),
        decreases systems.len() - i,
    {
        if i > 0 {
            out.append(" ");
            proof {
                reveal_strlit(" ");
                assert((" ")@ =~= seq![' ']);
            }
        }
        out.append(systems[i].as_str());
        proof {
            assert(all.take(i + 1).drop_last() =~= all.take(i as int));
            assert(all.take(i + 1).last() == systems@[i as int]@);
            if i == 0 {
                assert(joined(all.take(1)) == all[0]);
            }
            assert(out@ =~= idle_prefix() + joined(all.take(i + 1)));
        }
        i = i + 1;
    }
    proof {
        assert(all.take(systems.len() as int) =~= all);
    }
    out
}

/// The subsystems every subscriber watches, and is initially told may
/// all have changed.
pub fn watched_subsystems() -> (r: Vec<String>)
    ensures
        r@.len() == 4,
        r@[0]@ == "playlist"@,
        r@[1]@ == "player"@,
        r@[2]@ == "database"@,
        r@[3]@ == "options"@,
{
    let mut r: Vec<String> = Vec::new();
    r.push(String::from_str("playlist"));
    r.push(String::from_str("player"));
    r.push(String::from_str("database"));
    r.push(String::from_str("options"));
    r
}

/// Extracts the changed subsystem names from a notification response,
/// in arrival order, duplicates preserved.
pub fn changed_systems(result: &CommandResult) -> (r: Vec<String>)
    ensures
        strings_view(r@) == changed_of(result@.properties),
{
    let props = result.properties();
    let ghost all = result@.properties;
    let mut out: Vec<String> = Vec::new();
    proof {
        assert(strings_view(out@) =~= changed_of(all.take(0)));
    }
    let mut i: usize = 0;
    while i < props.len()
        invariant
            i <= props.len(),
            all == crate::result::props_view(props@),
            strings_view(out@) == changed_of(all.take(i as int)),
        decreases props.len() - i,
    {
        let hit = str_eq(props[i].0.as_str(), "changed");
        proof {
            reveal_strlit("changed");
            assert(("changed")@ =~= changed_key());
            assert(all.take(i + 1).drop_last() =~= all.take(i as int));
            assert(all.take(i + 1).last() == all[i as int]);
            assert(all[i as int] == (props@[i as int].0@, props@[i as int].1@));
        }
        if hit {
            let ghost pre = strings_view(out@);
            out.push(props[i].1.clone());
            proof {
                assert(strings_view(out@).drop_last() =~= pre);
                assert(strings_view(out@).last() == props@[i as int].1@);
                assert(strings_view(out@) =~= changed_of(all.take(i + 1)));
            }
        } else {
            proof {
                assert(changed_of(all.take(i + 1)) =~= changed_of(all.take(i as int)));
            }
        }
        i = i + 1;
    }
    proof {
        assert(all.take(props.len() as int) =~= all);
    }
    out
}

} // verus!
