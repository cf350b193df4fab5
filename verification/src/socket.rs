//! Where the sockets of sandboxes lie.
//!
//! The address of a Unix-domain socket holds a path of limited length, and a path that is too
//! long cannot be bound. Sockets that carry an identifier in their name stay below the limit in
//! a short directory, however deep the working directory of the process is.
use crate::text::push_decimal;
use vstd::prelude::*;

verus! {

/// The longest path, in bytes, that every supported platform binds.
pub const SUN_PATH_MAX: usize = 104;

/// The directory for the sockets of process `pid`.
pub open spec fn socket_dir(pid: u32) -> Seq<char> {
    "/tmp/engram-sock-"@ + crate::text::decimal(pid as nat)
}

/// The directory for the sockets of process `pid`. Whoever binds a socket in it creates it.
///
/// It lies under `/tmp`, since the temporary directory of some platforms is itself too long,
/// and carries the number of the process, so that two processes do not share sockets.
pub fn short_socket_dir(pid: u32) -> (res: String)
    ensures
        res@ == socket_dir(pid),
{
    let mut dir = String::from_str("/tmp/engram-sock-");
    push_decimal(&mut dir, pid as u64);
    dir
}

/// The path of `file` in `dir`.
pub open spec fn path_in(dir: Seq<char>, file: Seq<char>) -> Seq<char> {
    dir + "/"@ + file
}

/// The path of `file` in `dir`.
pub fn socket_path(dir: &str, file: &str) -> (res: String)
    ensures
        res@ == path_in(dir@, file@),
{
    let mut path = dir.to_owned();
    path.append("/");
    path.append(file);
    path
}

/// All characters are ASCII, so that each takes one byte.
pub open spec fn ascii(s: Seq<char>) -> bool {
    forall|i: int| 0 <= i < s.len() ==> #[trigger] (s[i] as u32) < 128
}

/// A number below 10^`k` has at most `k` digits, and these are ASCII.
proof fn decimal_is_short(n: nat, k: nat)
    requires
        k >= 1,
        n < vstd::arithmetic::power::pow(10, k),
    ensures
        crate::text::decimal(n).len() <= k,
        ascii(crate::text::decimal(n)),
    decreases k,
{
    vstd::arithmetic::power::lemma_pow1(10);
    if n >= 10 {
        vstd::arithmetic::power::lemma_pow_adds(10, 1, (k - 1) as nat);
        if k == 1 {
            assert(false);
        }
        decimal_is_short(n / 10, (k - 1) as nat);
    }
}

/// In the directory of any process there is room for a file name of 76 ASCII characters (an
/// identifier with a port suffix has 47): the path stays within the limit.
pub proof fn bind_path_fits(pid: u32, file: Seq<char>)
    requires
        ascii(file),
        file.len() <= 76,
    ensures
        ascii(path_in(socket_dir(pid), file)),
        path_in(socket_dir(pid), file).len() <= SUN_PATH_MAX,
{
    reveal_strlit("/tmp/engram-sock-");
    reveal_strlit("/");
    assert(vstd::arithmetic::power::pow(10, 10) == 10_000_000_000) by {
        reveal_with_fuel(vstd::arithmetic::power::pow, 11);
    }
    decimal_is_short(pid as nat, 10);
    let prefix = "/tmp/engram-sock-"@;
    let path = path_in(socket_dir(pid), file);
    let digits = crate::text::decimal(pid as nat);
    assert forall|i: int| 0 <= i < path.len() implies #[trigger] (path[i] as u32) < 128 by {
        if i < prefix.len() {
            assert(path[i] == prefix[i]);
        } else if i < prefix.len() + digits.len() {
            assert(path[i] == digits[i - prefix.len()]);
            assert((digits[i - prefix.len()] as u32) < 128);
        } else if i == prefix.len() + digits.len() {
            assert(path[i] == '/');
        } else {
            let j = i - prefix.len() - digits.len() - 1;
            assert(path[i] == file[j]);
            assert((file[j] as u32) < 128);
        }
    }
}

/// The directories of two processes differ.
pub proof fn socket_dirs_differ(a: u32, b: u32)
    requires
        socket_dir(a) == socket_dir(b),
    ensures
        a == b,
{
    let prefix = "/tmp/engram-sock-"@;
    let x = crate::text::decimal(a as nat);
    let y = crate::text::decimal(b as nat);
    assert(x =~= socket_dir(a).subrange(prefix.len() as int, socket_dir(a).len() as int));
    assert(y =~= socket_dir(b).subrange(prefix.len() as int, socket_dir(b).len() as int));
    crate::text::decimal_is_injective(a as nat, b as nat);
}

} // verus!
