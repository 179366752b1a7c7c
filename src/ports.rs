//! Port allocation: the first free port of each service's range.

use vstd::prelude::*;

verus! {

/// First port of the workflow runtime's range.
pub const N8N_BASE_PORT: u16 = 5678;

/// First port of the model server's range.
pub const OLLAMA_BASE_PORT: u16 = 11434;

/// How many ports follow the first one in each range.
pub const PORT_RANGE_SPAN: u16 = 20;

/// The ports allocated to the two services for a session.
#[derive(Clone, Copy, Debug, PartialEq, Eq, Structural)]
pub struct PortConfig {
    pub n8n_port: u16,
    pub ollama_port: u16,
}

/// Port `p` was found free: `free[i]` is the result of the bind probe on
/// port `start + i`, and a port past the end of `free` was not probed.
pub open spec fn probed_free(free: Seq<bool>, start: u16, p: int) -> bool {
    start <= p && p - start < free.len() && free[p - start]
}

/// `p` is the first port of `[start, end]` that was found free.
pub open spec fn first_free(free: Seq<bool>, start: u16, end: u16, p: int) -> bool {
    start <= p <= end && probed_free(free, start, p) && forall|q: int|
        start <= q < p ==> !probed_free(free, start, q)
}

/// The first port of `[start, end]`, in ascending order, that the bind probe
/// found free; `None` when there is none.
pub fn find_available_port(start: u16, end: u16, free: &Vec<bool>) -> (r: Option<u16>)
    ensures
        r matches Some(p) ==> first_free(free@, start, end, p as int),
        r is None ==> forall|q: int| start <= q <= end ==> !probed_free(free@, start, q),
{
    if start > end {
        return None;
    }
    let mut i: usize = 0;
    let span = (end - start) as usize;
    while i <= span && i < free.len()
        invariant
            span == end - start,
            forall|q: int| start <= q < start + i ==> !probed_free(free@, start, q),
        decreases span + 1 - i,
    {
        if free[i] {
            return Some(start + i as u16);
        }
        i += 1;
    }
    None
}

/// The port chosen in `[start, end]`: the first free one, or `start` when the
/// probe found none free (an optimistic choice that may still collide).
pub open spec fn chosen_port(free: Seq<bool>, start: u16, end: u16, p: u16) -> bool {
    first_free(free, start, end, p as int) || (p == start && forall|q: int|
        start <= q <= end ==> !probed_free(free, start, q))
}

/// Chooses a port in `[start, end]` (see `chosen_port`).
pub fn choose_port(start: u16, end: u16, free: &Vec<bool>) -> (r: u16)
    ensures
        chosen_port(free@, start, end, r),
        start <= end ==> start <= r <= end,
{
    match find_available_port(start, end, free) {
        Some(p) => p,
        None => start,
    }
}

/// The ports of a session: the first free port from 5678 to 5698 for the
/// workflow runtime and from 11434 to 11454 for the model server, where
/// `n8n_free` and `ollama_free` hold the bind probes of each range in order.
/// The two ranges do not meet, so the ports differ.
pub fn allocate_ports(n8n_free: &Vec<bool>, ollama_free: &Vec<bool>) -> (r: PortConfig)
    ensures
        chosen_port(n8n_free@, N8N_BASE_PORT, (N8N_BASE_PORT + PORT_RANGE_SPAN) as u16, r.n8n_port),
        chosen_port(ollama_free@, OLLAMA_BASE_PORT, (OLLAMA_BASE_PORT + PORT_RANGE_SPAN) as u16, r.ollama_port),
        r.n8n_port != r.ollama_port,
{
    let n8n_port = choose_port(N8N_BASE_PORT, N8N_BASE_PORT + PORT_RANGE_SPAN, n8n_free);
    let ollama_port = choose_port(OLLAMA_BASE_PORT, OLLAMA_BASE_PORT + PORT_RANGE_SPAN, ollama_free);
    PortConfig { n8n_port, ollama_port }
}

} // verus!
