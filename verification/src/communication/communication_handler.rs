use vstd::prelude::*;

verus! {

/// How bad a broken channel is.
#[derive(Clone, Copy, Debug, PartialEq, Eq, Structural)]
pub enum Severity {
    /// The simulation is alive: reconnecting may help.
    Recoverable,
    /// The simulation is taken for dead, or reconnecting has been tried
    /// often enough.
    Fatal,
}

/// Classifies a broken channel. It is fatal unless the simulation process
/// has been confirmed alive and fewer reconnects have been tried than are
/// allowed.
pub fn classify(process_alive: bool, attempts_made: usize, attempts_allowed: usize) -> (severity:
    Severity)
    ensures
        severity == Severity::Recoverable <==> process_alive && attempts_made < attempts_allowed,
        severity == Severity::Fatal <==> !process_alive || attempts_made >= attempts_allowed,
{
    if process_alive && attempts_made < attempts_allowed {
        Severity::Recoverable
    } else {
        Severity::Fatal
    }
}

/// The decimal digits of `n` as ASCII bytes, the highest first.
pub open spec fn decimal(n: nat) -> Seq<u8>
    decreases n,
{
    if n < 10 {
        seq![(48 + n) as u8]
    } else {
        decimal(n / 10).push((48 + n % 10) as u8)
    }
}

/// What every pipe name starts with: the ASCII bytes of `rlgym_pipe_`.
pub open spec fn pipe_prefix() -> Seq<u8> {
    seq![114u8, 108u8, 103u8, 121u8, 109u8, 95u8, 112u8, 105u8, 112u8, 101u8, 95u8]
}

/// The name of the pipe of the environment with this id, in ASCII bytes:
/// the prefix, then the id in decimal.
pub open spec fn pipe_name(pipe_id: nat) -> Seq<u8> {
    pipe_prefix() + decimal(pipe_id)
}

/// Appends the decimal digits of `n` to `name`.
fn push_decimal(name: &mut Vec<u8>, n: usize)
    ensures
        final(name)@ == old(name)@ + decimal(n as nat),
    decreases n,
{
    if n >= 10 {
        push_decimal(name, n / 10);
    }
    let digit: u8 = 48 + (n % 10) as u8;
    name.push(digit);
    assert(name@ =~= old(name)@ + decimal(n as nat));
}

/// The name of the pipe of the environment with this id.
pub fn format_pipe_id(pipe_id: usize) -> (name: Vec<u8>)
    ensures
        name@ == pipe_name(pipe_id as nat),
{
    let prefix: [u8; 11] = [114, 108, 103, 121, 109, 95, 112, 105, 112, 101, 95];
    assert(prefix@ =~= pipe_prefix());
    let mut name = Vec::<u8>::new();
    let mut i: usize = 0;
    while i < 11
        invariant
            i <= 11,
            prefix@ == pipe_prefix(),
            name@ == pipe_prefix().take(i as int),
        decreases 11 - i,
    {
        name.push(prefix[i]);
        assert(pipe_prefix().take(i + 1) =~= pipe_prefix().take(i as int).push(
            pipe_prefix()[i as int],
        ));
        i += 1;
    }
    assert(pipe_prefix().take(11) =~= pipe_prefix());
    push_decimal(&mut name, pipe_id);
    name
}

/// Numbers that are written alike in decimal are the same number.
pub proof fn lemma_decimal_is_injective(a: nat, b: nat)
    requires
        decimal(a) == decimal(b),
    ensures
        a == b,
    decreases a,
{
    if a < 10 && b < 10 {
        assert(decimal(a)[0] == (48 + a) as u8);
        assert(decimal(b)[0] == (48 + b) as u8);
    } else if a < 10 {
        lemma_decimal_is_not_empty(b / 10);
        assert(decimal(a).len() == 1);
        assert(decimal(b).len() == decimal(b / 10).len() + 1);
    } else if b < 10 {
        lemma_decimal_is_not_empty(a / 10);
        assert(decimal(b).len() == 1);
        assert(decimal(a).len() == decimal(a / 10).len() + 1);
    } else {
        let front_a = decimal(a / 10);
        let front_b = decimal(b / 10);
        assert(decimal(a).len() == front_a.len() + 1);
        assert(decimal(b).len() == front_b.len() + 1);
        assert(decimal(a)[front_a.len() as int] == decimal(b)[front_b.len() as int]);
        assert(decimal(a)[front_a.len() as int] == (48 + a % 10) as u8);
        assert(decimal(b)[front_b.len() as int] == (48 + b % 10) as u8);
        assert(a % 10 == b % 10);
        assert(decimal(a).drop_last() =~= front_a);
        assert(decimal(b).drop_last() =~= front_b);
        lemma_decimal_is_injective(a / 10, b / 10);
    }
}

proof fn lemma_decimal_is_not_empty(n: nat)
    ensures
        decimal(n).len() >= 1,
    decreases n,
{
    if n >= 10 {
        lemma_decimal_is_not_empty(n / 10);
    }
}

/// Environments with different ids have pipes with different names, so that
/// several of them can run side by side.
pub proof fn lemma_pipe_names_differ(a: nat, b: nat)
    requires
        a != b,
    ensures
        pipe_name(a) != pipe_name(b),
{
    if pipe_name(a) == pipe_name(b) {
        assert(pipe_name(a).skip(11) =~= decimal(a));
        assert(pipe_name(b).skip(11) =~= decimal(b));
        lemma_decimal_is_injective(a, b);
    }
}

} // verus!
