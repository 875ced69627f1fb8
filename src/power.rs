//! Charge control through the power attributes of a device: which attribute files to
//! write, with what, and what the outcome of the writes means.
//!
//! The attributes are modelled as a map from path to value, with a set of paths that
//! accept writes; a write to any other path fails and changes nothing.
use vstd::prelude::*;
use crate::text::{chars_of, trim, trim_chars};
use crate::decision::Action;

verus! {

/// One write to a power attribute file.
#[derive(Debug, Clone)]
pub struct AttributeWrite {
    pub path: String,
    pub value: String,
    /// A failure of this write fails the whole change; others are only reported.
    pub required: bool,
}

/// A charge change failed: the control attribute did not take the new value.
#[derive(PartialEq, Eq, Structural, Debug, Clone, Copy)]
pub struct ChargeWriteError;

pub open spec fn autosuspend_path(sys_path: Seq<char>) -> Seq<char> {
    sys_path + "/power/autosuspend"@
}

pub open spec fn control_path(sys_path: Seq<char>) -> Seq<char> {
    sys_path + "/power/control"@
}

pub open spec fn control_value(enabled: bool) -> Seq<char> {
    if enabled {
        "auto"@
    } else {
        "suspend"@
    }
}

/// A write as (path, value, required).
pub open spec fn write_view(w: AttributeWrite) -> (Seq<char>, Seq<char>, bool) {
    (w.path@, w.value@, w.required)
}

pub open spec fn writes_view(ws: Seq<AttributeWrite>) -> Seq<(Seq<char>, Seq<char>, bool)> {
    ws.map_values(|w: AttributeWrite| write_view(w))
}

/// The writes that set charging on or off: first the autosuspend delay, best effort,
/// then the control attribute, which must take the value.
pub open spec fn charge_plan(sys_path: Seq<char>, enabled: bool) -> Seq<(Seq<char>, Seq<char>, bool)> {
    seq![(autosuspend_path(sys_path), "2"@, false), (control_path(sys_path), control_value(enabled), true)]
}

/// The attributes after performing `plan` in order, where only the paths in `writable`
/// accept writes.
pub open spec fn apply_plan(
    attrs: Map<Seq<char>, Seq<char>>,
    writable: Set<Seq<char>>,
    plan: Seq<(Seq<char>, Seq<char>, bool)>,
) -> Map<Seq<char>, Seq<char>>
    decreases plan.len(),
{
    if plan.len() == 0 {
        attrs
    } else {
        let w = plan[0];
        let next = if writable.contains(w.0) {
            attrs.insert(w.0, w.1)
        } else {
            attrs
        };
        apply_plan(next, writable, plan.drop_first())
    }
}

/// A required write of `plan` failed, given whether each of its writes succeeded: the
/// condition under which a charge change reports an error.
pub open spec fn change_outcome(plan: Seq<(Seq<char>, Seq<char>, bool)>, succeeded: Seq<bool>) -> bool {
    exists|i: int| 0 <= i < plan.len() && (#[trigger] plan[i]).2 && !succeeded[i]
}

pub struct PowerController;

impl PowerController {
    pub fn new() -> Self {
        PowerController
    }

    fn plan(&self, sys_path: &str, enabled: bool) -> (r: Vec<AttributeWrite>)
        ensures
            writes_view(r@) == charge_plan(sys_path@, enabled),
    {
        let mut autosuspend = String::from_str(sys_path);
        autosuspend.append("/power/autosuspend");
        let mut control = String::from_str(sys_path);
        control.append("/power/control");
        let value = if enabled {
            String::from_str("auto")
        } else {
            String::from_str("suspend")
        };
        let mut r: Vec<AttributeWrite> = Vec::new();
        r.push(AttributeWrite { path: autosuspend, value: String::from_str("2"), required: false });
        r.push(AttributeWrite { path: control, value, required: true });
        assert(writes_view(r@) =~= charge_plan(sys_path@, enabled));
        r
    }

    /// The writes that let the device at `sys_path` charge.
    pub fn set_charging_enabled(&self, sys_path: &str) -> (r: Vec<AttributeWrite>)
        ensures
            writes_view(r@) == charge_plan(sys_path@, true),
    {
        self.plan(sys_path, true)
    }

    /// The writes that stop the device at `sys_path` from drawing charging current.
    pub fn set_charging_disabled(&self, sys_path: &str) -> (r: Vec<AttributeWrite>)
        ensures
            writes_view(r@) == charge_plan(sys_path@, false),
    {
        self.plan(sys_path, false)
    }

    /// The writes that carry out `action` on the device at `sys_path`: enabling or
    /// disabling charging; no writes for an action that changes nothing.
    pub fn writes_for(&self, sys_path: &str, action: Action) -> (r: Option<Vec<AttributeWrite>>)
        ensures
            match action {
                Action::ChargingEnabled => r is Some && writes_view(r->0@) == charge_plan(sys_path@, true),
                Action::ChargingDisabled => r is Some && writes_view(r->0@) == charge_plan(sys_path@, false),
                _ => r is None,
            },
    {
        match action {
            Action::ChargingEnabled => Some(self.set_charging_enabled(sys_path)),
            Action::ChargingDisabled => Some(self.set_charging_disabled(sys_path)),
            _ => None,
        }
    }

    /// The outcome of a charge change, given whether each of its writes succeeded:
    /// an error exactly when a required write failed.
    pub fn change_result(&self, plan: &Vec<AttributeWrite>, succeeded: &Vec<bool>) -> (r: Result<(), ChargeWriteError>)
        requires
            succeeded@.len() == plan@.len(),
        ensures
            r is Err <==> change_outcome(writes_view(plan@), succeeded@),
    {
        let mut i: usize = 0;
        while i < plan.len()
            invariant
                succeeded@.len() == plan@.len(),
                i <= plan@.len(),
                forall|k: int| 0 <= k < i ==> !(#[trigger] writes_view(plan@)[k]).2 || succeeded@[k],
            decreases plan.len() - i,
        {
            if plan[i].required && !succeeded[i] {
                assert(writes_view(plan@)[i as int].2 && !succeeded@[i as int]);
                return Err(ChargeWriteError);
            }
            i = i + 1;
        }
        Ok(())
    }

    /// Whether charging is on, given the text of the control attribute, or `None` where
    /// it could not be read. `auto` means on; `suspend`, the value written to stop
    /// charging, means off; any other value, and a failed read, count as on, so that
    /// an unclear state never starves the device.
    pub fn is_charging_enabled(&self, control: Option<&str>) -> (r: bool)
        ensures
            r == match control {
                Some(c) => trim(c@) != "suspend"@,
                None => true,
            },
    {
        match control {
            None => true,
            Some(c) => {
                let text = chars_of(c);
                let suspend = chars_of("suspend");
                let t = trim_chars(text.as_slice());
                !crate::text::eq_exec(t, suspend.as_slice())
            },
        }
    }
}

proof fn lemma_apply_twice(
    attrs: Map<Seq<char>, Seq<char>>,
    writable: Set<Seq<char>>,
    sys_path: Seq<char>,
    enabled: bool,
)
    ensures
        apply_plan(attrs, writable, charge_plan(sys_path, enabled)) == {
            let a1 = if writable.contains(autosuspend_path(sys_path)) {
                attrs.insert(autosuspend_path(sys_path), "2"@)
            } else {
                attrs
            };
            if writable.contains(control_path(sys_path)) {
                a1.insert(control_path(sys_path), control_value(enabled))
            } else {
                a1
            }
        },
{
    let plan = charge_plan(sys_path, enabled);
    let rest = plan.drop_first();
    assert(rest.drop_first() =~= Seq::<(Seq<char>, Seq<char>, bool)>::empty());
    assert(rest[0] == plan[1]);
    let a1 = if writable.contains(plan[0].0) {
        attrs.insert(plan[0].0, plan[0].1)
    } else {
        attrs
    };
    let a2 = if writable.contains(rest[0].0) {
        a1.insert(rest[0].0, rest[0].1)
    } else {
        a1
    };
    assert(apply_plan(a2, writable, rest.drop_first()) == a2);
    assert(apply_plan(a1, writable, rest) == a2);
    assert(apply_plan(attrs, writable, plan) == apply_plan(a1, writable, rest));
}

/// Setting the charge state twice to the same value leaves the attributes as setting it
/// once does. Whether a write succeeds depends on its path alone, so the second change
/// reports an error exactly where the first did.
pub proof fn lemma_charge_change_idempotent(
    attrs: Map<Seq<char>, Seq<char>>,
    writable: Set<Seq<char>>,
    sys_path: Seq<char>,
    enabled: bool,
)
    ensures
        ({
            let plan = charge_plan(sys_path, enabled);
            let once = apply_plan(attrs, writable, plan);
            apply_plan(once, writable, plan) == once
        }),
{
    let plan = charge_plan(sys_path, enabled);
    let once = apply_plan(attrs, writable, plan);
    lemma_apply_twice(attrs, writable, sys_path, enabled);
    lemma_apply_twice(once, writable, sys_path, enabled);
    let a = autosuspend_path(sys_path);
    let c = control_path(sys_path);
    let twice = apply_plan(once, writable, plan);
    assert(twice =~= once) by {
        assert forall|k: Seq<char>| #[trigger] twice.contains_key(k) == once.contains_key(k) && (twice.contains_key(k) ==> twice[k] == once[k]) by {
            if k == c && writable.contains(c) {
            } else if k == a && writable.contains(a) {
            }
        }
    }
}

} // verus!
