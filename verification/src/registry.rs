//! Provider instances by name.

use vstd::prelude::*;

use crate::fault::LegacyProviderError;
use crate::names::NameMap;
use crate::provider::FvpRuntimeProvider;
use crate::text;

verus! {

/// The instances that a host has created.
#[derive(Debug)]
pub struct ProviderRegistry {
    pub instances: NameMap<FvpRuntimeProvider>,
}

/// Whether a provider has a session.
pub open spec fn busy(provider: FvpRuntimeProvider) -> bool {
    exists|id: Seq<char>| #[trigger] provider@.sessions.contains_key(id)
}

fn instance_missing() -> (r: LegacyProviderError)
    ensures
        r@ == crate::fault::fault(
            "ASTRA_FVP_INSTANCE_MISSING",
            "provider instance id is not active",
        ),
{
    LegacyProviderError::invalid("ASTRA_FVP_INSTANCE_MISSING", "provider instance id is not active")
}

impl ProviderRegistry {
    pub open spec fn view(&self) -> Map<Seq<char>, FvpRuntimeProvider> {
        self.instances@
    }

    pub open spec fn wf(&self) -> bool {
        &&& self.instances.wf()
        &&& forall|id: Seq<char>| #[trigger]
            self.instances@.contains_key(id) ==> self.instances@[id].wf()
    }

    /// A registry without instances.
    pub fn new() -> (r: Self)
        ensures
            r.wf(),
            r@ == Map::<Seq<char>, FvpRuntimeProvider>::empty(),
    {
        ProviderRegistry { instances: NameMap::new() }
    }

    /// Creates an instance without cases and sessions. `verdict` is what the
    /// boundary's rules say of the name.
    pub fn create_instance(
        &mut self,
        instance_id: &str,
        verdict: Result<(), LegacyProviderError>,
    ) -> (r: Result<(), LegacyProviderError>)
        requires
            old(self).wf(),
        ensures
            final(self).wf(),
            match verdict {
                Err(e) => r is Err && r->Err_0@ == e@ && final(self)@ == old(self)@,
                Ok(_) => if old(self)@.contains_key(instance_id@) {
                    &&& r is Err
                    &&& r->Err_0@ == crate::fault::fault(
                        "ASTRA_FVP_INSTANCE_DUPLICATE",
                        "provider instance id is already active",
                    )
                    &&& final(self)@ == old(self)@
                } else {
                    &&& r is Ok
                    &&& final(self)@.contains_key(instance_id@)
                    &&& final(self)@.remove(instance_id@) == old(self)@
                    &&& !busy(final(self)@[instance_id@])
                    &&& final(self)@[instance_id@]@.cases.len() == 0
                },
            },
    {
        match verdict {
            Err(e) => return Err(e),
            Ok(_) => {},
        }
        let provider = FvpRuntimeProvider::new();
        let ghost before = self@;
        if !self.instances.insert_new(text::owned(instance_id), provider) {
            return Err(
                LegacyProviderError::invalid(
                    "ASTRA_FVP_INSTANCE_DUPLICATE",
                    "provider instance id is already active",
                ),
            );
        }
        assert(self@ == before.insert(instance_id@, provider));
        assert(self@.remove(instance_id@) =~= before);
        Ok(())
    }

    /// Destroys an instance. One with a session stays.
    pub fn destroy_instance(&mut self, instance_id: &str) -> (r: Result<(), LegacyProviderError>)
        requires
            old(self).wf(),
        ensures
            final(self).wf(),
            if !old(self)@.contains_key(instance_id@) {
                &&& r is Err
                &&& r->Err_0@ == crate::fault::fault(
                    "ASTRA_FVP_INSTANCE_MISSING",
                    "provider instance id is not active",
                )
                &&& final(self)@ == old(self)@
            } else if busy(old(self)@[instance_id@]) {
                &&& r is Err
                &&& r->Err_0@ == crate::fault::fault(
                    "ASTRA_FVP_INSTANCE_ACTIVE_SESSIONS",
                    "provider instance still owns active sessions",
                )
                &&& final(self)@ == old(self)@
            } else {
                &&& r is Ok
                &&& final(self)@ == old(self)@.remove(instance_id@)
            },
    {
        match self.instances.get(instance_id) {
            None => return Err(instance_missing()),
            Some(provider) => if provider.has_active_sessions() {
                return Err(
                    LegacyProviderError::invalid(
                        "ASTRA_FVP_INSTANCE_ACTIVE_SESSIONS",
                        "provider instance still owns active sessions",
                    ),
                );
            },
        }
        let _ = self.instances.remove(instance_id);
        Ok(())
    }

    /// The instance under a name.
    pub fn provider(&mut self, instance_id: &str) -> (r: Result<
        &mut FvpRuntimeProvider,
        LegacyProviderError,
    >)
        requires
            old(self).wf(),
        ensures
            final(self).instances.wf(),
            match r {
                Ok(provider) => {
                    &&& old(self)@.contains_key(instance_id@)
                    &&& *provider == old(self)@[instance_id@]
                    &&& final(self)@ == old(self)@.insert(instance_id@, *final(provider))
                },
                Err(e) => {
                    &&& !old(self)@.contains_key(instance_id@)
                    &&& e@ == crate::fault::fault(
                        "ASTRA_FVP_INSTANCE_MISSING",
                        "provider instance id is not active",
                    )
                    &&& *final(self) == *old(self)
                },
            },
    {
        match self.instances.get_mut(instance_id) {
            Some(provider) => Ok(provider),
            None => Err(instance_missing()),
        }
    }
}

/// A provider is busy as long as it has a session, whatever cases it has.
pub proof fn law_provider_with_a_session_is_busy(provider: FvpRuntimeProvider, id: Seq<char>)
    ensures
        provider@.sessions.contains_key(id) ==> busy(provider),
        provider@.sessions.dom() == Set::<Seq<char>>::empty() ==> !busy(provider),
{
    if provider@.sessions.dom() == Set::<Seq<char>>::empty() {
        assert forall|other: Seq<char>| !#[trigger] provider@.sessions.contains_key(other) by {
            assert(!provider@.sessions.dom().contains(other));
        }
    }
}

}
