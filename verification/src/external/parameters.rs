use vstd::prelude::*;

verus! {

/// How the load-generating client paces itself.
#[derive(Clone, Copy, Debug, PartialEq, Eq, Structural)]
pub struct ClientParameters {
    pub prepare_batch_number: u64,
    pub prepare_batch_size: u64,
    pub prepare_single_sign_percentage: u64,
    pub parallel_streams: u64,
}

pub open spec fn is_digit(byte: u8) -> bool {
    48 <= byte <= 57
}

/// Space, tab, line feed and carriage return separate numbers.
pub open spec fn is_blank(byte: u8) -> bool {
    byte == 32 || byte == 9 || byte == 10 || byte == 13
}

/// The number that a run of decimal digits writes.
pub open spec fn decimal(digits: Seq<u8>) -> nat
    decreases digits.len(),
{
    if digits.len() == 0 {
        0
    } else {
        decimal(digits.drop_last()) * 10 + (digits.last() - 48) as nat
    }
}

/// The first place at or after `at` that holds no blank; the end of the
/// text if there is none.
pub open spec fn after_blanks(text: Seq<u8>, at: int) -> int
    recommends
        0 <= at <= text.len(),
    decreases text.len() - at,
{
    if 0 <= at < text.len() && is_blank(text[at]) {
        after_blanks(text, at + 1)
    } else {
        at
    }
}

/// The first place at or after `at` that holds no digit; the end of the
/// text if there is none.
pub open spec fn after_digits(text: Seq<u8>, at: int) -> int
    recommends
        0 <= at <= text.len(),
    decreases text.len() - at,
{
    if 0 <= at < text.len() && is_digit(text[at]) {
        after_digits(text, at + 1)
    } else {
        at
    }
}

/// The number written at or after `at`, blanks skipped, with the place
/// where it ends; none if no digit follows the blanks, or if the number
/// does not fit in 64 bits.
pub open spec fn number_at(text: Seq<u8>, at: int) -> Option<(u64, int)> {
    let start = after_blanks(text, at);
    let end = after_digits(text, start);
    if start < end && decimal(text.subrange(start, end)) <= u64::MAX {
        Some((decimal(text.subrange(start, end)) as u64, end))
    } else {
        None
    }
}

/// The parameters that `text` writes: four numbers, separated by blanks,
/// and nothing else but blanks.
pub open spec fn parameters_of(text: Seq<u8>) -> Option<ClientParameters> {
    match number_at(text, 0) {
        Some((prepare_batch_number, first)) => match number_at(text, first) {
            Some((prepare_batch_size, second)) => match number_at(text, second) {
                Some((prepare_single_sign_percentage, third)) => match number_at(text, third) {
                    Some((parallel_streams, fourth)) => if after_blanks(text, fourth)
                        == text.len() {
                        Some(
                            ClientParameters {
                                prepare_batch_number,
                                prepare_batch_size,
                                prepare_single_sign_percentage,
                                parallel_streams,
                            },
                        )
                    } else {
                        None
                    },
                    None => None,
                },
                None => None,
            },
            None => None,
        },
        None => None,
    }
}

proof fn lemma_after_bounds(text: Seq<u8>, at: int)
    requires
        0 <= at <= text.len(),
    ensures
        at <= after_blanks(text, at) <= text.len(),
        at <= after_digits(text, at) <= text.len(),
    decreases text.len() - at,
{
    if at < text.len() {
        lemma_after_bounds(text, at + 1);
    }
}

fn skip_blanks(text: &Vec<u8>, at: usize) -> (next: usize)
    requires
        at <= text@.len(),
    ensures
        next == after_blanks(text@, at as int),
        at <= next <= text@.len(),
{
    let mut next: usize = at;
    while next < text.len() && (text[next] == 32 || text[next] == 9 || text[next] == 10
        || text[next] == 13)
        invariant
            at <= next <= text@.len(),
            after_blanks(text@, at as int) == after_blanks(text@, next as int),
        decreases text@.len() - next,
    {
        next += 1;
    }
    next
}

fn read_number(text: &Vec<u8>, at: usize) -> (number: Option<(u64, usize)>)
    requires
        at <= text@.len(),
    ensures
        match number {
            Some((value, end)) => number_at(text@, at as int) == Some((value, end as int)) && end
                <= text@.len(),
            None => number_at(text@, at as int) is None,
        },
{
    let start = skip_blanks(text, at);
    let mut end: usize = start;
    let mut value: u64 = 0;
    let mut fits = true;
    proof {
        lemma_after_bounds(text@, start as int);
        assert(text@.subrange(start as int, start as int) =~= Seq::<u8>::empty());
    }
    while end < text.len() && text[end] >= 48 && text[end] <= 57
        invariant
            start <= end <= text@.len(),
            after_digits(text@, start as int) == after_digits(text@, end as int),
            fits ==> value == decimal(text@.subrange(start as int, end as int)),
            !fits ==> decimal(text@.subrange(start as int, end as int)) > u64::MAX,
        decreases text@.len() - end,
    {
        let digit = (text[end] - 48) as u64;
        proof {
            let grown = text@.subrange(start as int, end + 1);
            assert(grown.drop_last() =~= text@.subrange(start as int, end as int));
            assert(grown.last() == text@[end as int]);
        }
        if fits && value <= (u64::MAX - digit) / 10 {
            value = value * 10 + digit;
        } else {
            fits = false;
        }
        end += 1;
    }
    if start < end && fits {
        Some((value, end))
    } else {
        None
    }
}

impl ClientParameters {
    /// What a client does where no parameters are given.
    pub fn default_parameters() -> (parameters: ClientParameters)
        ensures
            parameters == (ClientParameters {
                prepare_batch_number: 1,
                prepare_batch_size: 50000,
                prepare_single_sign_percentage: 0,
                parallel_streams: 1,
            }),
    {
        ClientParameters {
            prepare_batch_number: 1,
            prepare_batch_size: 50000,
            prepare_single_sign_percentage: 0,
            parallel_streams: 1,
        }
    }

    /// Reads the parameters off `text`; none if `text` is anything but
    /// four numbers that each fit in 64 bits, separated by blanks.
    pub fn parse(text: &Vec<u8>) -> (parameters: Option<ClientParameters>)
        ensures
            parameters == parameters_of(text@),
    {
        let (prepare_batch_number, first) = match read_number(text, 0) {
            Some(read) => read,
            None => {
                return None;
            },
        };
        let (prepare_batch_size, second) = match read_number(text, first) {
            Some(read) => read,
            None => {
                return None;
            },
        };
        let (prepare_single_sign_percentage, third) = match read_number(text, second) {
            Some(read) => read,
            None => {
                return None;
            },
        };
        let (parallel_streams, fourth) = match read_number(text, third) {
            Some(read) => read,
            None => {
                return None;
            },
        };
        if skip_blanks(text, fourth) != text.len() {
            return None;
        }
        Some(
            ClientParameters {
                prepare_batch_number,
                prepare_batch_size,
                prepare_single_sign_percentage,
                parallel_streams,
            },
        )
    }

    /// Number of requests in each mini-batch: the batch is split evenly
    /// over the streams.
    pub fn mini_batch_size(&self) -> (size: u64)
        requires
            self.parallel_streams > 0,
        ensures
            size == self.prepare_batch_size / self.parallel_streams,
    {
        self.prepare_batch_size / self.parallel_streams
    }
}

} // verus!
