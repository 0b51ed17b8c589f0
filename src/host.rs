//! The host facts read from `/proc/cpuinfo`, `/proc/meminfo` and
//! `/etc/lsb-release`.
use vstd::prelude::*;
use crate::error::InfoError;
use crate::number::{decimal, parse_decimal, parse_u64, all_digits, lemma_decimal_parses};
use crate::text::{chars_of, find_value, first_index, index_of, keyed_value, line_value,
    range_equals, sub_chars, law_first_keyed_line_wins, law_other_line_skipped};

verus! {

/// The CPU model that `cpuinfo` names: the value of its first `model name` line.
pub open spec fn cpu_model_of(cpuinfo: Seq<char>) -> Option<Seq<char>> {
    keyed_value(cpuinfo, "model name"@, ':')
}

/// The OS description that `lsb_release` gives: the value of its first
/// `DISTRIB_DESCRIPTION` line.
pub open spec fn os_description_of(lsb_release: Seq<char>) -> Option<Seq<char>> {
    keyed_value(lsb_release, "DISTRIB_DESCRIPTION"@, '=')
}

/// The total memory, in whole megabytes, that `meminfo` gives on its first
/// `MemTotal` line, whose value is `<number> <unit>`; only the unit `kB` is
/// understood.
pub open spec fn mem_total_of(meminfo: Seq<char>) -> Result<u64, InfoError> {
    match keyed_value(meminfo, "MemTotal"@, ':') {
        None => Err(InfoError::MissingKey),
        Some(v) => {
            let p = first_index(v, ' ');
            if p >= v.len() {
                Err(InfoError::Malformed)
            } else {
                match parse_u64(v.subrange(0, p)) {
                    None => Err(InfoError::Malformed),
                    Some(n) => if v.subrange(p + 1, v.len() as int) == "kB"@ {
                        Ok(n / 1024)
                    } else {
                        Err(InfoError::UnsupportedUnit)
                    },
                }
            }
        },
    }
}

/// The CPU model named by the text of `/proc/cpuinfo`.
pub fn read_cpu_model(cpuinfo: &str) -> (r: Result<String, InfoError>)
    ensures
        match r {
            Ok(m) => cpu_model_of(cpuinfo@) == Some(m@),
            Err(e) => cpu_model_of(cpuinfo@) is None && e == InfoError::MissingKey,
        },
{
    match find_value(cpuinfo, "model name", ':') {
        Some(m) => Ok(m),
        None => Err(InfoError::MissingKey),
    }
}

/// The OS description given by the text of `/etc/lsb-release`.
pub fn read_os_description(lsb_release: &str) -> (r: Result<String, InfoError>)
    ensures
        match r {
            Ok(d) => os_description_of(lsb_release@) == Some(d@),
            Err(e) => os_description_of(lsb_release@) is None && e == InfoError::MissingKey,
        },
{
    match find_value(lsb_release, "DISTRIB_DESCRIPTION", '=') {
        Some(d) => Ok(d),
        None => Err(InfoError::MissingKey),
    }
}

/// The total memory in megabytes given by the text of `/proc/meminfo`.
pub fn read_memory_total_mb(meminfo: &str) -> (r: Result<u64, InfoError>)
    ensures
        r == mem_total_of(meminfo@),
{
    let v = match find_value(meminfo, "MemTotal", ':') {
        Some(v) => v,
        None => return Err(InfoError::MissingKey),
    };
    let vc = chars_of(v.as_str());
    let p = index_of(&vc, ' ');
    if p >= vc.len() {
        return Err(InfoError::Malformed);
    }
    let digits = sub_chars(&vc, 0, p);
    let n = match parse_decimal(&digits) {
        Some(n) => n,
        None => return Err(InfoError::Malformed),
    };
    let unit = chars_of("kB");
    if range_equals(&vc, p + 1, vc.len(), &unit) {
        Ok(n / 1024)
    } else {
        Err(InfoError::UnsupportedUnit)
    }
}

/// A `MemTotal` line of `<N> kB` gives `N / 1024` megabytes, rounded down.
pub proof fn law_mem_total_kib(meminfo: Seq<char>, n: u64)
    requires
        keyed_value(meminfo, "MemTotal"@, ':') == Some(decimal(n as nat) + " kB"@),
    ensures
        mem_total_of(meminfo) == Ok::<u64, InfoError>(n / 1024),
{
    reveal_strlit(" kB");
    reveal_strlit("kB");
    let d = decimal(n as nat);
    let v = d + " kB"@;
    lemma_decimal_parses(n);
    lemma_first_space_after_digits(d, " kB"@);
    assert(v.subrange(0, d.len() as int) =~= d);
    assert(v.subrange(d.len() + 1 as int, v.len() as int) =~= "kB"@);
}

/// A `MemTotal` line whose unit is anything but `kB` is refused.
pub proof fn law_mem_total_other_unit(meminfo: Seq<char>, n: u64, unit: Seq<char>)
    requires
        keyed_value(meminfo, "MemTotal"@, ':') == Some(decimal(n as nat) + seq![' '] + unit),
        unit != "kB"@,
    ensures
        mem_total_of(meminfo) == Err::<u64, InfoError>(InfoError::UnsupportedUnit),
{
    let d = decimal(n as nat);
    let v = d + seq![' '] + unit;
    lemma_decimal_parses(n);
    lemma_first_space_after_digits(d, seq![' '] + unit);
    assert(v =~= d + (seq![' '] + unit));
    assert(v.subrange(0, d.len() as int) =~= d);
    assert(v.subrange(d.len() + 1 as int, v.len() as int) =~= unit);
}

proof fn lemma_first_space_after_digits(d: Seq<char>, tail: Seq<char>)
    requires
        all_digits(d),
        tail.len() > 0,
        tail[0] == ' ',
    ensures
        first_index(d + tail, ' ') == d.len(),
    decreases d.len(),
{
    if d.len() > 0 {
        assert((d + tail).drop_first() =~= d.drop_first() + tail);
        assert forall|i: int| 0 <= i < d.drop_first().len() implies crate::number::is_digit(
            #[trigger] d.drop_first()[i],
        ) by {
            assert(d.drop_first()[i] == d[i + 1]);
        }
        assert(crate::number::is_digit(d[0]));
        lemma_first_space_after_digits(d.drop_first(), tail);
    }
}

/// The CPU model comes from the first `model name` line, whatever follows it.
pub proof fn law_cpu_model_first_line(line: Seq<char>, rest: Seq<char>)
    requires
        !line.contains('\n'),
        line_value(line, "model name"@, ':') is Some,
    ensures
        cpu_model_of(line + seq!['\n'] + rest) == line_value(line, "model name"@, ':'),
{
    law_first_keyed_line_wins(line, rest, "model name"@, ':');
}

/// Lines before the first `model name` line play no part in the CPU model.
pub proof fn law_cpu_model_skips_other_lines(line: Seq<char>, rest: Seq<char>)
    requires
        !line.contains('\n'),
        line_value(line, "model name"@, ':') is None,
    ensures
        cpu_model_of(line + seq!['\n'] + rest) == cpu_model_of(rest),
{
    law_other_line_skipped(line, rest, "model name"@, ':');
}

} // verus!
