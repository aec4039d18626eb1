use vstd::prelude::*;

verus! {

/// Health of one replica, as reported to the status service.
#[derive(Debug, Clone, Copy, PartialEq, Eq, Structural)]
pub enum Status {
    Healthy,
    Sick,
    Dead,
}

/// The health a probe outcome stands for: `Dead` when the replica could not
/// be reached, `Sick` when it answered no faster than the sick threshold, and
/// `Healthy` otherwise.
pub open spec fn classify_spec(reachable: bool, latency_ms: nat, sick_threshold_secs: Option<nat>) -> Status {
    if !reachable {
        Status::Dead
    } else {
        match sick_threshold_secs {
            Some(t) => if latency_ms >= t * 1000 { Status::Sick } else { Status::Healthy },
            None => Status::Healthy,
        }
    }
}

impl Status {
    /// The word that names this status on the wire.
    pub open spec fn spec_str(self) -> Seq<char> {
        match self {
            Status::Healthy => "healthy"@,
            Status::Sick => "sick"@,
            Status::Dead => "dead"@,
        }
    }

    pub fn as_str(&self) -> (r: &'static str)
        ensures
            r@ == self.spec_str(),
    {
        match self {
            Status::Healthy => "healthy",
            Status::Sick => "sick",
            Status::Dead => "dead",
        }
    }
}

/// Classifies a probe outcome. `latency_ms` is the latency that the probe
/// measured, or the time it took when it measures none; the sick threshold is
/// given in seconds and is absent when no metrics are configured.
pub fn classify(reachable: bool, latency_ms: u64, sick_threshold_secs: Option<u64>) -> (r: Status)
    ensures
        r == classify_spec(
            reachable,
            latency_ms as nat,
            match sick_threshold_secs {
                Some(t) => Some(t as nat),
                None => None,
            },
        ),
{
    if !reachable {
        return Status::Dead;
    }
    match sick_threshold_secs {
        Some(t) => {
            let whole_secs = latency_ms / 1000;
            proof {
                let l = latency_ms as int;
                let w = whole_secs as int;
                assert(w * 1000 <= l && l < w * 1000 + 1000);
                assert(l >= (t as int) * 1000 <==> w >= t as int) by (nonlinear_arith)
                    requires
                        w * 1000 <= l,
                        l < w * 1000 + 1000,
                        t >= 0,
                ;
            }
            if whole_secs >= t {
                Status::Sick
            } else {
                Status::Healthy
            }
        },
        None => Status::Healthy,
    }
}

/// A replica that cannot be reached is dead, whatever its latency and
/// threshold; one that can is sick exactly when a threshold is configured and
/// its latency meets it, and healthy otherwise.
pub proof fn lemma_classify_cases(reachable: bool, latency_ms: nat, sick_threshold_secs: Option<nat>)
    ensures
        !reachable ==> classify_spec(reachable, latency_ms, sick_threshold_secs) == Status::Dead,
        reachable && sick_threshold_secs is None ==> classify_spec(reachable, latency_ms, sick_threshold_secs)
            == Status::Healthy,
        reachable && sick_threshold_secs is Some && latency_ms >= sick_threshold_secs->0 * 1000
            ==> classify_spec(reachable, latency_ms, sick_threshold_secs) == Status::Sick,
        reachable && sick_threshold_secs is Some && latency_ms < sick_threshold_secs->0 * 1000
            ==> classify_spec(reachable, latency_ms, sick_threshold_secs) == Status::Healthy,
{
}

} // verus!
