use vstd::prelude::*;

verus! {

/// The port `steps` away from `port` on a side with `arity` ports, stopping
/// at the first and the last port.
pub open spec fn spec_port_target(port: u16, arity: u16, steps: i32) -> int {
    let hi: int = if arity > 0 {
        arity - 1
    } else {
        0
    };
    let s: int = port + steps;
    let lo_clamped: int = if s < 0 {
        0
    } else {
        s
    };
    if lo_clamped > hi {
        hi
    } else {
        lo_clamped
    }
}

/// Steps from `port` by `steps` ports on a side with `arity` ports, stopping
/// at the ends: the distance actually moved and the port reached, or none
/// when the step does not move.
pub fn step_port_by(port: u16, arity: u16, steps: i32) -> (r: Option<(i32, u16)>)
    ensures
        ({
            let t = spec_port_target(port, arity, steps);
            if t == port {
                r is None
            } else {
                r == Some(
                    (
                        (if t > port {
                            t - port
                        } else {
                            port - t
                        }) as i32,
                        t as u16,
                    ),
                )
            }
        }),
        r matches Some((d, _)) ==> d != 0,
{
    let hi: i64 = if arity > 0 {
        arity as i64 - 1
    } else {
        0
    };
    let s: i64 = port as i64 + steps as i64;
    let lo_clamped: i64 = if s < 0 {
        0
    } else {
        s
    };
    let res: i64 = if lo_clamped > hi {
        hi
    } else {
        lo_clamped
    };
    let res = res as u16;
    let d: i32 = if res > port {
        (res - port) as i32
    } else {
        (port - res) as i32
    };
    if d != 0 {
        Some((d, res))
    } else {
        None
    }
}

} // verus!
