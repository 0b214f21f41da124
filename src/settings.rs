use vstd::prelude::*;

use crate::text::{contains_name, string_views};

verus! {

/// The operator's settings: whether the output device gets a channel of its
/// own, and the names of the applications that are hidden.
pub struct VolumeControllerSettings {
    pub show_sys_mixer: bool,
    pub ignored_apps: Vec<String>,
}

impl VolumeControllerSettings {
    pub fn new() -> (r: VolumeControllerSettings)
        ensures
            !r.show_sys_mixer,
            r.ignored_apps@.len() == 0,
    {
        VolumeControllerSettings { show_sys_mixer: false, ignored_apps: Vec::new() }
    }
}

pub fn should_show_system_mixer(settings: &VolumeControllerSettings) -> (r: bool)
    ensures
        r == settings.show_sys_mixer,
{
    settings.show_sys_mixer
}

pub fn set_show_system_mixer(settings: &mut VolumeControllerSettings, value: bool)
    ensures
        final(settings).show_sys_mixer == value,
        final(settings).ignored_apps@ == old(settings).ignored_apps@,
{
    settings.show_sys_mixer = value;
}

/// Adds a name to the ignore list unless it is there already; says whether
/// it was added.
pub fn ignore_app(settings: &mut VolumeControllerSettings, name: &String) -> (added: bool)
    ensures
        added == !string_views(old(settings).ignored_apps@).contains(name@),
        string_views(final(settings).ignored_apps@) == if added {
            string_views(old(settings).ignored_apps@).push(name@)
        } else {
            string_views(old(settings).ignored_apps@)
        },
        final(settings).show_sys_mixer == old(settings).show_sys_mixer,
{
    if contains_name(&settings.ignored_apps, name) {
        false
    } else {
        let ghost before = settings.ignored_apps@;
        settings.ignored_apps.push(name.clone());
        proof {
            assert(string_views(settings.ignored_apps@) =~= string_views(before).push(name@));
        }
        true
    }
}

/// Takes every copy of a name off the ignore list; the others keep their order.
pub fn unignore_app(settings: &mut VolumeControllerSettings, name: &String)
    ensures
        string_views(final(settings).ignored_apps@) == string_views(old(settings).ignored_apps@).filter(
            |s: Seq<char>| s != name@,
        ),
        final(settings).show_sys_mixer == old(settings).show_sys_mixer,
{
    let ghost pred = |s: Seq<char>| s != name@;
    let ghost all = string_views(settings.ignored_apps@);
    let mut kept: Vec<String> = Vec::new();
    let mut i: usize = 0;
    while i < settings.ignored_apps.len()
        invariant
            all == string_views(settings.ignored_apps@),
            pred == (|s: Seq<char>| s != name@),
            i <= all.len(),
            string_views(kept@) == all.take(i as int).filter(pred),
        decreases all.len() - i,
    {
        proof {
            assert(all.take(i + 1).drop_last() =~= all.take(i as int));
            reveal_with_fuel(Seq::filter, 1);
        }
        if settings.ignored_apps[i] != *name {
            let ghost before = kept@;
            kept.push(settings.ignored_apps[i].clone());
            proof {
                assert(string_views(kept@) =~= string_views(before).push(all[i as int]));
            }
        }
        i = i + 1;
    }
    proof {
        assert(all.take(all.len() as int) =~= all);
    }
    settings.ignored_apps = kept;
}

} // verus!
