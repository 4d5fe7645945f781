//! The typed command operations: each builds the exact request line the
//! protocol expects, with paths and other string arguments quoted and
//! escaped, and numbers rendered in decimal. The plans (handshake,
//! queue update) list the request lines to issue in order under one
//! lock acquisition.

use vstd::prelude::*;
use vstd::string::*;
use crate::codec::{dec_rep, quote_arg, quoted, str_eq, u64_to_dec};
use crate::error::MpdError;
use crate::result::{strings_view, PropertyMap};

verus! {

/// The binary chunk size limit requested from the daemon at handshake.
pub const BINARY_LIMIT: u64 = 1048576;

/// The request line that appends a path to the end of the queue.
pub fn add_command(path: &str) -> (r: String)
    ensures
        r@ == ("add ")@ + quoted(path@),
{
    let mut out = String::from_str("add ");
    let q = quote_arg(path);
    out.append(q.as_str());
    out
}

/// The request line that inserts a path at a queue position; the
/// position is passed through the same quoting as a path.
pub fn add_pos_command(path: &str, pos: &str) -> (r: String)
    ensures
        r@ == ("add ")@ + quoted(path@) + (" ")@ + quoted(pos@),
{
    let mut out = String::from_str("add ");
    let q = quote_arg(path);
    out.append(q.as_str());
    out.append(" ");
    let p = quote_arg(pos);
    out.append(p.as_str());
    out
}

/// The request line that lists a directory of the library.
pub fn lsinfo_command(path: &str) -> (r: String)
    ensures
        r@ == ("lsinfo ")@ + quoted(path@),
{
    let mut out = String::from_str("lsinfo ");
    let q = quote_arg(path);
    out.append(q.as_str());
    out
}

/// The request line that asks for a path's album artwork.
pub fn albumart_command(path: &str) -> (r: String)
    ensures
        r@ == ("albumart ")@ + quoted(path@),
{
    let mut out = String::from_str("albumart ");
    let q = quote_arg(path);
    out.append(q.as_str());
    out
}

/// The request line that asks for a path's embedded picture.
pub fn readpicture_command(path: &str) -> (r: String)
    ensures
        r@ == ("readpicture ")@ + quoted(path@),
{
    let mut out = String::from_str("readpicture ");
    let q = quote_arg(path);
    out.append(q.as_str());
    out
}

/// One chunk request of a binary transfer: the base command followed by
/// the byte offset to continue from.
pub fn chunk_request(command: &str, offset: usize) -> (r: String)
    ensures
        r@ == command@ + (" ")@ + dec_rep(offset as int),
{
    let mut out = String::from_str(command);
    out.append(" ");
    let n = u64_to_dec(offset as u64);
    out.append(n.as_str());
    out
}

/// The request line that removes one queue item by its id.
pub fn deleteid_command(id: u32) -> (r: String)
    ensures
        r@ == ("deleteid ")@ + dec_rep(id as int),
{
    let mut out = String::from_str("deleteid ");
    let n = u64_to_dec(id as u64);
    out.append(n.as_str());
    out
}

/// The request line for a queue deletion: one item by id, or the whole
/// queue when no id is given.
pub fn delete_command(id: Option<u32>) -> (r: String)
    ensures
        match id {
            Some(v) => r@ == ("deleteid ")@ + dec_rep(v as int),
            None => r@ == ("clear")@,
        },
{
    match id {
        Some(v) => deleteid_command(v),
        None => String::from_str("clear"),
    }
}

/// The request line that moves a queue item between positions.
pub fn move_command(from: u32, to: u32) -> (r: String)
    ensures
        r@ == ("move ")@ + dec_rep(from as int) + (" ")@ + dec_rep(to as int),
{
    let mut out = String::from_str("move ");
    let f = u64_to_dec(from as u64);
    out.append(f.as_str());
    out.append(" ");
    let t = u64_to_dec(to as u64);
    out.append(t.as_str());
    out
}

/// The request line of the password exchange.
pub fn password_command(password: &str) -> (r: String)
    ensures
        r@ == ("password ")@ + quoted(password@),
{
    let mut out = String::from_str("password ");
    let q = quote_arg(password);
    out.append(q.as_str());
    out
}

/// The request line that negotiates the binary chunk size limit.
pub fn binarylimit_command() -> (r: String)
    ensures
        r@ == ("binarylimit ")@ + dec_rep(BINARY_LIMIT as int),
{
    let mut out = String::from_str("binarylimit ");
    let n = u64_to_dec(BINARY_LIMIT);
    out.append(n.as_str());
    out
}

/// The request lines of the handshake, after the greeting line is
/// discarded: the password exchange if a password is configured, then
/// the binary limit negotiation. Each must succeed for the connection
/// to become usable.
pub open spec fn handshake_plan(password: Seq<char>) -> Seq<Seq<char>> {
    (if password.len() == 0 {
        Seq::<Seq<char>>::empty()
    } else {
        seq![("password ")@ + quoted(password)]
    }) + seq![("binarylimit ")@ + dec_rep(BINARY_LIMIT as int)]
}

/// Builds the handshake's request lines for an optional password (the
/// empty string meaning none is configured).
pub fn handshake_commands(password: &str) -> (r: Vec<String>)
    ensures
        strings_view(r@) == handshake_plan(password@),
{
    let mut r: Vec<String> = Vec::new();
    if password.unicode_len() > 0 {
        r.push(password_command(password));
    }
    r.push(binarylimit_command());
    proof {
        assert(strings_view(r@) =~= handshake_plan(password@));
    }
    r
}

/// The value a toggle command writes: `0` when the setting currently
/// reads `1`, else `1`.
pub open spec fn toggle_suffix(v: Seq<char>) -> Seq<char> {
    if v == ("1")@ {
        ("0")@
    } else {
        ("1")@
    }
}

/// The request line that flips a boolean setting to the inverse of the
/// value the given status snapshot reports for it.
pub fn toggle_command(setting: &str, status: &PropertyMap) -> (r: String)
    requires
        status@.contains_key(setting@),
    ensures
        r@ == setting@ + (" ")@ + toggle_suffix(status@[setting@]),
{
    let current = match status.get(setting) {
        Some(v) => v,
        None => {
            proof {
                assert(false);
            }
            return String::new();
        },
    };
    let on = str_eq(current.as_str(), "1");
    let mut out = String::from_str(setting);
    out.append(" ");
    if on {
        out.append("0");
    } else {
        out.append("1");
    }
    out
}

/// Toggling twice restores the setting: for a setting that reads `0`
/// or `1`, the value the first toggle writes, toggled again, is the
/// original value.
pub proof fn lemma_toggle_twice_restores(v: Seq<char>)
    requires
        v == ("0")@ || v == ("1")@,
    ensures
        toggle_suffix(toggle_suffix(v)) == v,
{
    reveal_strlit("0");
    reveal_strlit("1");
    assert(("0")@[0] == '0' && ("1")@[0] == '1');
    assert(("0")@ != ("1")@);
}

/// The request lines of one queue update, issued in order under one
/// lock acquisition: clear first when replacing, then the addition (at
/// the front when playing next, else at the end), then `play` when
/// playback is requested.
pub open spec fn queue_plan(path: Seq<char>, replace: bool, next: bool, play: bool) -> Seq<
    Seq<char>,
> {
    (if replace {
        seq![("clear")@]
    } else {
        Seq::<Seq<char>>::empty()
    }) + seq![
        if next {
            ("add ")@ + quoted(path) + (" ")@ + quoted(("+0")@)
        } else {
            ("add ")@ + quoted(path)
        },
    ] + (if play {
        seq![("play")@]
    } else {
        Seq::<Seq<char>>::empty()
    })
}

/// Builds the request lines of one queue update.
pub fn queue_post_plan(path: &str, replace: bool, next: bool, play: bool) -> (r: Vec<String>)
    ensures
        strings_view(r@) == queue_plan(path@, replace, next, play),
{
    let mut r: Vec<String> = Vec::new();
    if replace {
        r.push(String::from_str("clear"));
    }
    if next {
        r.push(add_pos_command(path, "+0"));
    } else {
        r.push(add_command(path));
    }
    if play {
        r.push(String::from_str("play"));
    }
    proof {
        assert(strings_view(r@) =~= queue_plan(path@, replace, next, play));
    }
    r
}

/// Resolves an artwork fetch: the primary result stands, except that a
/// primary not-found defers to the fallback fetch's result. Two
/// not-found fetches therefore resolve to not-found, never to a
/// connection error or an empty payload.
pub fn resolve_artwork(primary: Result<Vec<u8>, MpdError>, fallback: Result<Vec<u8>, MpdError>)
    -> (r: Result<Vec<u8>, MpdError>)
    ensures
        primary matches Ok(b) ==> (r matches Ok(rb) && rb@ == b@),
        primary matches Err(e) ==> (if (e matches MpdError::NotFound) {
            r == fallback
        } else {
            r matches Err(re) && re == e
        }),
{
    match primary {
        Ok(b) => Ok(b),
        Err(MpdError::NotFound) => fallback,
        Err(e) => Err(e),
    }
}

/// Whether the fallback artwork fetch should run at all: only when the
/// primary fetch reported not-found.
pub fn artwork_fallback_needed(primary: &Result<Vec<u8>, MpdError>) -> (r: bool)
    ensures
        r == (primary matches Err(e) && e matches MpdError::NotFound),
{
    match primary {
        Err(MpdError::NotFound) => true,
        _ => false,
    }
}

} // verus!
