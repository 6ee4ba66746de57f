//! Application resources, as far as attribution needs them.

use vstd::prelude::*;
use crate::cache::{inserted, insert_into_cache, AppInfo, AppInfoView, IngressCache};

verus! {

/// The spec part of an Application resource.
#[derive(Debug)]
pub struct ApplicationT {
    pub creation_timestamp: Option<String>,
    pub ingresses: Option<Vec<String>>,
}

/// An Application resource: its metadata and its spec.
#[derive(Debug)]
pub struct Application {
    pub name: Option<String>,
    pub namespace: Option<String>,
    pub creation_timestamp: Option<String>,
    pub spec: ApplicationT,
}

/// The record of an application: produced only when it has an ingress, a
/// namespace and a creation time; the name defaults to `unknown app name`.
pub open spec fn app_info_of(a: Application) -> Option<AppInfoView> {
    if a.spec.ingresses is Some && a.spec.ingresses->0@.len() > 0 && a.namespace is Some
        && a.creation_timestamp is Some {
        Some(
            (
                match a.name {
                    Some(n) => n@,
                    None => "unknown app name"@,
                },
                a.namespace->0@,
                a.spec.ingresses->0@[0]@,
                a.creation_timestamp->0@,
            ),
        )
    } else {
        None
    }
}

/// The record of an application, attributed to its first ingress.
pub fn application_to_app_info(application: &Application) -> (r: Option<AppInfo>)
    ensures
        match app_info_of(*application) {
            Some(v) => r is Some && r->0@ == v,
            None => r is None,
        },
{
    let ingress_url = match &application.spec.ingresses {
        Some(ingresses) => {
            if ingresses.len() == 0 {
                return None;
            }
            ingresses[0].clone()
        },
        None => return None,
    };
    let app_name = match &application.name {
        Some(n) => n.clone(),
        None => String::from_str("unknown app name"),
    };
    let namespace = match &application.namespace {
        Some(n) => n.clone(),
        None => return None,
    };
    let creation_timestamp = match &application.creation_timestamp {
        Some(t) => t.clone(),
        None => return None,
    };
    Some(AppInfo { app_name, namespace, ingress: ingress_url, creation_timestamp })
}

/// Records an application that was listed or applied: where it has a record,
/// the record goes into the cache under its ingress. Says whether it did.
pub fn apply_application(cache: &mut IngressCache, application: &Application) -> (r: bool)
    requires
        old(cache).wf(),
    ensures
        final(cache).wf(),
        r == app_info_of(*application) is Some,
        r ==> inserted(*old(cache), *final(cache), (app_info_of(*application)->0).2, app_info_of(*application)->0),
        !r ==> *final(cache) == *old(cache),
{
    match application_to_app_info(application) {
        Some(info) => {
            let key = info.ingress.clone();
            insert_into_cache(cache, key, info);
            true
        },
        None => false,
    }
}

/// The hosts after the first `k` applications were recorded in order.
pub open spec fn hosts_after(hosts: Map<Seq<char>, Seq<char>>, apps: Seq<Application>, k: nat) -> Map<
    Seq<char>,
    Seq<char>,
>
    decreases k,
{
    if k == 0 || k > apps.len() {
        hosts
    } else {
        let before = hosts_after(hosts, apps, (k - 1) as nat);
        match app_info_of(apps[k - 1]) {
            Some(v) => before.insert(v.2, v.2),
            None => before,
        }
    }
}

/// The number of the first `k` applications that have a record.
pub open spec fn recorded_count(apps: Seq<Application>, k: nat) -> nat
    decreases k,
{
    if k == 0 || k > apps.len() {
        0
    } else {
        let before = recorded_count(apps, (k - 1) as nat);
        if app_info_of(apps[k - 1]) is Some {
            before + 1
        } else {
            before
        }
    }
}

/// Records every listed application that has a record, in order; returns
/// how many did.
pub fn populate_cache(cache: &mut IngressCache, applications: &Vec<Application>) -> (r: usize)
    requires
        old(cache).wf(),
    ensures
        final(cache).wf(),
        final(cache).hosts() == hosts_after(old(cache).hosts(), applications@, applications@.len()),
        r == recorded_count(applications@, applications@.len()),
{
    let mut count: usize = 0;
    let mut i: usize = 0;
    while i < applications.len()
        invariant
            i <= applications@.len(),
            cache.wf(),
            cache.hosts() == hosts_after(old(cache).hosts(), applications@, i as nat),
            count == recorded_count(applications@, i as nat),
            count <= i,
        decreases applications.len() - i,
    {
        if apply_application(cache, &applications[i]) {
            count = count + 1;
        }
        i = i + 1;
    }
    count
}

} // verus!
