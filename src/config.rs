use vstd::prelude::*;
use vstd::string::StrSliceExecFns;
use crate::pacer::interval_for;

verus! {

/// Largest transmit buffer a run may allocate: two buffers' worth of
/// messages, `message_size * n_iterations * 2` bytes.
pub const MAX_BUFFER_BYTES: u64 = 4294967296;

/// The parameters of one benchmark run.
#[derive(Clone, Copy, Debug, PartialEq, Eq, Structural)]
pub struct Config {
    /// Number of messages whose latency is measured.
    pub n_iterations: usize,
    /// Target sends per second.
    pub frequency: u64,
    /// Core index the sending thread is bound to.
    pub sender_pin: usize,
    /// Core index the receiving thread is bound to.
    pub receiver_pin: usize,
    /// Clock units per second of the timestamp source.
    pub clock_frequency: u64,
    /// Bytes per message.
    pub message_size: usize,
}

/// The command-line value a configuration error is about.
#[derive(Clone, Copy, Debug, PartialEq, Eq, Structural)]
pub enum Setting {
    Iterations,
    Frequency,
    SendPin,
    RecvPin,
    Clock,
    MessageSize,
}

#[derive(Clone, Copy, Debug, PartialEq, Eq, Structural)]
pub enum ConfigError {
    /// The value is not a decimal number of the setting's type.
    InvalidNumber(Setting),
    /// A send frequency of zero gives no schedule.
    ZeroFrequency,
    /// Messages of zero bytes cannot be counted at the receiving end.
    ZeroMessageSize,
    /// `message_size * n_iterations * 2` exceeds `MAX_BUFFER_BYTES`.
    BufferTooLarge,
}

pub open spec fn is_digit(c: char) -> bool {
    '0' <= c && c <= '9'
}

pub open spec fn digit_value(c: char) -> nat {
    ((c as u32) - ('0' as u32)) as nat
}

/// The number a string of decimal digits denotes.
pub open spec fn decimal_value(s: Seq<char>) -> nat
    decreases s.len(),
{
    if s.len() == 0 {
        0
    } else {
        decimal_value(s.drop_last()) * 10 + digit_value(s.last())
    }
}

/// The digits of an unsigned number: the text after an optional `+`.
pub open spec fn unsigned_digits(s: Seq<char>) -> Seq<char> {
    if s.len() > 0 && s[0] == '+' {
        s.drop_first()
    } else {
        s
    }
}

/// An optional `+` and a non-empty run of decimal digits whose value is at
/// most `bound`.
pub open spec fn parse_bounded(s: Seq<char>, bound: nat) -> Option<nat> {
    let d = unsigned_digits(s);
    if d.len() > 0 && (forall|i: int| 0 <= i < d.len() ==> is_digit(#[trigger] d[i]))
        && decimal_value(d) <= bound {
        Some(decimal_value(d))
    } else {
        None
    }
}

proof fn lemma_value_monotone(s: Seq<char>, i: int, j: int)
    requires
        0 <= i <= j <= s.len(),
    ensures
        decimal_value(s.take(i)) <= decimal_value(s.take(j)),
    decreases j - i,
{
    if i < j {
        assert(s.take(j).drop_last() =~= s.take(j - 1));
        lemma_value_monotone(s, i, j - 1);
    }
}

/// Reads a decimal number no larger than `u64::MAX`, with an optional
/// leading `+`.
pub fn parse_decimal(s: &str) -> (r: Option<u64>)
    ensures
        r matches Some(v) ==> parse_bounded(s@, u64::MAX as nat) == Some(v as nat),
        r is None ==> parse_bounded(s@, u64::MAX as nat) is None,
{
    let len = s.unicode_len();
    let off: usize = if len > 0 && s.get_char(0) == '+' { 1 } else { 0 };
    let ghost d = unsigned_digits(s@);
    proof {
        assert(d =~= s@.subrange(off as int, len as int));
    }
    if len == off {
        return None;
    }
    let mut v: u64 = 0;
    let mut i: usize = off;
    proof {
        assert(d.take(0) =~= Seq::<char>::empty());
    }
    while i < len
        invariant
            len == s@.len(),
            off <= i <= len,
            d == unsigned_digits(s@),
            d =~= s@.subrange(off as int, len as int),
            v as nat == decimal_value(d.take(i - off)),
            forall|k: int| 0 <= k < i - off ==> is_digit(#[trigger] d[k]),
        decreases len - i,
    {
        let c = s.get_char(i);
        proof {
            assert(c == d[i - off]);
        }
        if !('0' <= c && c <= '9') {
            proof {
                assert(!is_digit(d[i - off]));
            }
            return None;
        }
        proof {
            let t = d.take(i - off + 1);
            assert(t.drop_last() =~= d.take(i - off));
            assert(t.last() == c);
            assert(decimal_value(t) == decimal_value(d.take(i - off)) * 10 + digit_value(c));
        }
        let dv: u64 = ((c as u32) - ('0' as u32)) as u64;
        match v.checked_mul(10) {
            Some(t) => match t.checked_add(dv) {
                Some(w) => {
                    v = w;
                },
                None => {
                    proof {
                        lemma_value_monotone(d, i - off + 1, d.len() as int);
                        assert(d.take(d.len() as int) =~= d);
                    }
                    return None;
                },
            },
            None => {
                proof {
                    lemma_value_monotone(d, i - off + 1, d.len() as int);
                    assert(d.take(d.len() as int) =~= d);
                }
                return None;
            },
        }
        i = i + 1;
    }
    proof {
        assert(d.take(d.len() as int) =~= d);
    }
    Some(v)
}

/// Reads a decimal number of type `u64`, naming `which` on failure.
fn parse_u64(s: &str, which: Setting) -> (r: Result<u64, ConfigError>)
    ensures
        r == (match parse_bounded(s@, u64::MAX as nat) {
            Some(v) => Ok::<u64, ConfigError>(v as u64),
            None => Err(ConfigError::InvalidNumber(which)),
        }),
{
    match parse_decimal(s) {
        Some(v) => Ok(v),
        None => Err(ConfigError::InvalidNumber(which)),
    }
}

/// Reads a decimal number of type `usize`, naming `which` on failure.
fn parse_usize(s: &str, which: Setting) -> (r: Result<usize, ConfigError>)
    ensures
        r == (match parse_bounded(s@, usize::MAX as nat) {
            Some(v) => Ok::<usize, ConfigError>(v as usize),
            None => Err(ConfigError::InvalidNumber(which)),
        }),
{
    match parse_decimal(s) {
        Some(v) => {
            if v <= usize::MAX as u64 {
                Ok(v as usize)
            } else {
                Err(ConfigError::InvalidNumber(which))
            }
        },
        None => {
            proof {
                if parse_bounded(s@, usize::MAX as nat) is Some {
                    assert(usize::MAX as nat <= u64::MAX as nat);
                }
            }
            Err(ConfigError::InvalidNumber(which))
        },
    }
}

impl Config {
    /// The run's configuration is usable: a positive frequency and a
    /// transmit buffer within the ceiling.
    pub open spec fn valid(&self) -> bool {
        &&& self.frequency > 0
        &&& self.message_size > 0
        &&& self.message_size * self.n_iterations * 2 <= MAX_BUFFER_BYTES
    }

    pub open spec fn check_spec(&self) -> Result<(), ConfigError> {
        if self.frequency == 0 {
            Err(ConfigError::ZeroFrequency)
        } else if self.message_size == 0 {
            Err(ConfigError::ZeroMessageSize)
        } else if self.message_size * self.n_iterations * 2 > MAX_BUFFER_BYTES {
            Err(ConfigError::BufferTooLarge)
        } else {
            Ok(())
        }
    }

    /// Rejects a zero frequency, then a zero message size, then a transmit
    /// buffer above the ceiling.
    pub fn check(&self) -> (r: Result<(), ConfigError>)
        ensures
            r == self.check_spec(),
            r is Ok <==> self.valid(),
    {
        if self.frequency == 0 {
            return Err(ConfigError::ZeroFrequency);
        }
        if self.message_size == 0 {
            return Err(ConfigError::ZeroMessageSize);
        }
        let size = self.message_size as u64;
        let n = self.n_iterations as u64;
        match size.checked_mul(n) {
            Some(b) => match b.checked_mul(2) {
                Some(total) => {
                    if total > MAX_BUFFER_BYTES {
                        Err(ConfigError::BufferTooLarge)
                    } else {
                        Ok(())
                    }
                },
                None => Err(ConfigError::BufferTooLarge),
            },
            None => {
                proof {
                    assert(size * n * 2 >= size * n) by (nonlinear_arith);
                }
                Err(ConfigError::BufferTooLarge)
            },
        }
    }

    /// Bytes of the transmit buffer: two buffers' worth of messages.
    pub fn buffer_len(&self) -> (r: u64)
        requires
            self.valid(),
        ensures
            r == self.message_size * self.n_iterations * 2,
    {
        let size = self.message_size as u64;
        let n = self.n_iterations as u64;
        proof {
            assert(size * n <= size * n * 2) by (nonlinear_arith);
        }
        size * n * 2
    }

    /// How many whole messages `bytes` drained bytes make up.
    pub fn messages_in(&self, bytes: usize) -> (r: usize)
        requires
            self.message_size > 0,
        ensures
            r == bytes / self.message_size,
    {
        bytes / self.message_size
    }

    /// Clock units between two paced sends.
    pub fn send_interval(&self) -> (r: u64)
        requires
            self.frequency > 0,
        ensures
            r == interval_for(self.clock_frequency, self.frequency),
    {
        self.clock_frequency / self.frequency
    }
}

pub open spec fn config_of(
    iterations: Seq<char>,
    frequency: Seq<char>,
    sendpin: Seq<char>,
    recvpin: Seq<char>,
    clock: Seq<char>,
    message_size: Seq<char>,
) -> Result<Config, ConfigError> {
    match (
        parse_bounded(iterations, usize::MAX as nat),
        parse_bounded(frequency, u64::MAX as nat),
        parse_bounded(sendpin, usize::MAX as nat),
        parse_bounded(recvpin, usize::MAX as nat),
        parse_bounded(clock, u64::MAX as nat),
        parse_bounded(message_size, usize::MAX as nat),
    ) {
        (Some(n), Some(f), Some(s), Some(r), Some(c), Some(m)) => {
            let cfg = Config {
                n_iterations: n as usize,
                frequency: f as u64,
                sender_pin: s as usize,
                receiver_pin: r as usize,
                clock_frequency: c as u64,
                message_size: m as usize,
            };
            match cfg.check_spec() {
                Ok(_) => Ok(cfg),
                Err(e) => Err(e),
            }
        },
        (None, _, _, _, _, _) => Err(ConfigError::InvalidNumber(Setting::Iterations)),
        (_, None, _, _, _, _) => Err(ConfigError::InvalidNumber(Setting::Frequency)),
        (_, _, None, _, _, _) => Err(ConfigError::InvalidNumber(Setting::SendPin)),
        (_, _, _, None, _, _) => Err(ConfigError::InvalidNumber(Setting::RecvPin)),
        (_, _, _, _, None, _) => Err(ConfigError::InvalidNumber(Setting::Clock)),
        (_, _, _, _, _, None) => Err(ConfigError::InvalidNumber(Setting::MessageSize)),
    }
}

/// Builds a configuration from the textual values of its settings, in the
/// order iterations, frequency, send pin, receive pin, clock frequency,
/// message size. The first value that is not a number of its type is
/// reported; then the configuration is checked.
pub fn config_from_values(
    iterations: &str,
    frequency: &str,
    sendpin: &str,
    recvpin: &str,
    clock: &str,
    message_size: &str,
) -> (r: Result<Config, ConfigError>)
    ensures
        r == config_of(iterations@, frequency@, sendpin@, recvpin@, clock@, message_size@),
        r matches Ok(c) ==> c.valid(),
{
    let n = parse_usize(iterations, Setting::Iterations)?;
    let f = parse_u64(frequency, Setting::Frequency)?;
    let s = parse_usize(sendpin, Setting::SendPin)?;
    let rp = parse_usize(recvpin, Setting::RecvPin)?;
    let c = parse_u64(clock, Setting::Clock)?;
    let m = parse_usize(message_size, Setting::MessageSize)?;
    let cfg = Config {
        n_iterations: n,
        frequency: f,
        sender_pin: s,
        receiver_pin: rp,
        clock_frequency: c,
        message_size: m,
    };
    match cfg.check() {
        Ok(_) => Ok(cfg),
        Err(e) => Err(e),
    }
}

} // verus!
