//! Container lifecycle data, as the dispatcher reads and writes it.
//!
//! Instants are held as seconds since the Unix epoch; the container
//! backend converts at the edge.

use crate::text::str_to_chars;
use vstd::prelude::*;

verus! {

/// Container lifecycle status.
#[derive(Debug, Clone)]
pub enum ContainerStatus {
    Running,
    Stopped,
    /// The container exited, with its exit code.
    Exited(i32),
    /// The container failed, with a description.
    Error(String),
}

/// The tracked state of one container.
#[derive(Debug, Clone)]
pub struct ContainerState {
    pub id: String,
    pub name: String,
    pub image: String,
    /// Seconds since the Unix epoch.
    pub started_at: i64,
    pub status: ContainerStatus,
}

/// Configuration for starting a new container.
#[derive(Debug, Clone)]
pub struct StartConfig {
    pub image: String,
    pub command: Option<Vec<String>>,
    pub env_vars: Vec<String>,
    /// Pairs of host path and container path.
    pub volume_mounts: Vec<(String, String)>,
    pub name: Option<String>,
}

/// Log query options for incremental fetching.
#[derive(Debug, Clone)]
pub struct LogQuery {
    pub container_id: String,
    /// Seconds since the Unix epoch.
    pub since: Option<i64>,
    pub tail_lines: Option<u64>,
    pub include_stdout: bool,
    pub include_stderr: bool,
}

/// Log output from a container.
#[derive(Debug, Clone)]
pub struct LogsOutput {
    pub stdout: Vec<String>,
    pub stderr: Vec<String>,
    /// Seconds since the Unix epoch.
    pub timestamp: Option<i64>,
}

/// The first index at or after `i` holding `c`, or the length.
pub open spec fn find_char(s: Seq<char>, c: char, i: int) -> int
    decreases s.len() - i,
{
    if 0 <= i < s.len() {
        if s[i] == c {
            i
        } else {
            find_char(s, c, i + 1)
        }
    } else {
        i
    }
}

pub proof fn lemma_find_char(s: Seq<char>, c: char, i: int)
    requires
        0 <= i <= s.len(),
    ensures
        i <= find_char(s, c, i) <= s.len(),
        find_char(s, c, i) < s.len() ==> s[find_char(s, c, i)] == c,
        forall|q: int| i <= q < find_char(s, c, i) ==> s[q] != c,
    decreases s.len() - i,
{
    if i < s.len() && s[i] != c {
        lemma_find_char(s, c, i + 1);
    }
}

/// The host and container paths of a volume mount: the text up to the
/// first colon, and everything after it.  A mount without a colon is
/// refused.
pub fn split_volume_mount(m: &str) -> (r: Option<(String, String)>)
    ensures
        (match r {
            Option::Some((h, c)) => {
                let k = find_char(m@, ':', 0);
                k < m@.len() && h@ == m@.subrange(0, k) && c@ == m@.subrange(k + 1, m@.len() as int)
            },
            Option::None => find_char(m@, ':', 0) == m@.len(),
        }),
{
    let cs = str_to_chars(m);
    let n = cs.len();
    let mut k: usize = 0;
    while k < n && cs[k] != ':'
        invariant
            0 <= k <= n,
            n == cs@.len(),
            cs@ == m@,
            find_char(m@, ':', 0) == find_char(m@, ':', k as int),
        decreases n - k,
    {
        k = k + 1;
    }
    if k == n {
        return None;
    }
    let mut host: Vec<char> = Vec::new();
    let mut i: usize = 0;
    while i < k
        invariant
            0 <= i <= k < n,
            n == cs@.len(),
            cs@ == m@,
            host@ == m@.subrange(0, i as int),
        decreases k - i,
    {
        host.push(cs[i]);
        i = i + 1;
        assert(host@ =~= m@.subrange(0, i as int));
    }
    let mut cont: Vec<char> = Vec::new();
    let mut j: usize = k + 1;
    while j < n
        invariant
            k + 1 <= j <= n,
            n == cs@.len(),
            cs@ == m@,
            cont@ == m@.subrange(k + 1, j as int),
        decreases n - j,
    {
        cont.push(cs[j]);
        j = j + 1;
        assert(cont@ =~= m@.subrange(k + 1, j as int));
    }
    Some((crate::text::chars_to_string(&host), crate::text::chars_to_string(&cont)))
}

} // verus!
