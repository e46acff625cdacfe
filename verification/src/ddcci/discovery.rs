//! Which device files to probe for monitors, and which monitor to pick.
use vstd::prelude::*;
use vstd::string::StrSliceExecFns;
use crate::ddcci::transport::ProbeResult;

verus! {

/// The device files of I²C buses are named with this prefix.
pub open spec fn is_i2c_name(name: Seq<char>) -> bool {
    name.len() >= 4 && name.take(4) == seq!['i', '2', 'c', '-']
}

/// Whether a device file name names an I²C bus (it starts with `i2c-`).
pub fn is_i2c_device_name(name: &str) -> (found: bool)
    ensures
        found == is_i2c_name(name@),
{
    if name.unicode_len() < 4 {
        return false;
    }
    let found = name.get_char(0) == 'i' && name.get_char(1) == '2' && name.get_char(2) == 'c'
        && name.get_char(3) == '-';
    assert(found == (name@.take(4) == seq!['i', '2', 'c', '-'])) by {
        if found {
            assert(name@.take(4) =~= seq!['i', '2', 'c', '-']);
        }
    }
    found
}

/// A name is that of an I²C bus exactly when it starts with `i2c-`, whatever follows:
/// every name made of `i2c-` and any rest is one, and every such name begins with
/// those four characters.
pub proof fn law_i2c_names_by_prefix(rest: Seq<char>, name: Seq<char>)
    ensures
        is_i2c_name(seq!['i', '2', 'c', '-'] + rest),
        is_i2c_name(name) ==> name.len() >= 4 && name[0] == 'i' && name[1] == '2' && name[2]
            == 'c' && name[3] == '-',
        name.len() >= 4 && name[0] == 'i' && name[1] == '2' && name[2] == 'c' && name[3] == '-'
            ==> is_i2c_name(name),
{
    let prefix = seq!['i', '2', 'c', '-'];
    assert((prefix + rest).take(4) =~= prefix);
    if is_i2c_name(name) {
        assert(name[0] == name.take(4)[0]);
        assert(name[1] == name.take(4)[1]);
        assert(name[2] == name.take(4)[2]);
        assert(name[3] == name.take(4)[3]);
    }
    if name.len() >= 4 && name[0] == 'i' && name[1] == '2' && name[2] == 'c' && name[3] == '-' {
        assert(name.take(4) =~= prefix);
    }
}

/// The first monitor that a discovery found, if any.
pub fn find_monitor(monitors: Vec<ProbeResult>) -> (first: Option<ProbeResult>)
    ensures
        monitors@.len() == 0 ==> first.is_none(),
        monitors@.len() > 0 ==> first == Some(monitors@[0]),
{
    let mut monitors = monitors;
    if monitors.len() == 0 {
        None
    } else {
        Some(monitors.remove(0))
    }
}

} // verus!
