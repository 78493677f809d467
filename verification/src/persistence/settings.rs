//! Configuration and profiles in the store.

use vstd::prelude::*;

use super::keys::{make_session_key, make_workspace_key, session_key, workspace_key};
use super::{profile_views, DataStore, StoreView};
use crate::config::{
    ConfigChange, ConfigScope, ModelSelection, Profile, ProfileId, ProfileView, RuntimeOverrides, RuntimeSettings,
};
use crate::file_config::{
    apply_override_change, apply_settings_change, as_overrides, changed_overrides,
    changed_settings, copy_profiles, other_than, settings_as_overrides, upsert_profile,
    with_profile, without_profile, AdapterDefaults,
};
use crate::seqs::{lemma_filter_none, lemma_filter_step, lemma_take_all};

verus! {

/// Whether these are the profiles of a user who has saved none: the subscription alone.
pub open spec fn initial_profiles(profiles: Seq<ProfileView>) -> bool {
    &&& profiles.len() == 1
    &&& profiles[0].id@ == crate::config::chatgpt_name()
    &&& profiles[0].label@ == "ChatGPT subscription"@
    &&& profiles[0].endpoint.protocol == crate::config::Protocol::ChatGptSubscription
    &&& profiles[0].endpoint.base_url is None
    &&& profiles[0].endpoint.valid
    &&& profiles[0].models == Seq::<String>::empty()
}

impl StoreView {
    /// The user's settings.
    pub open spec fn user_settings(self, defaults: AdapterDefaults) -> RuntimeSettings {
        match self.settings {
            Some(settings) => settings,
            None => defaults.settings(),
        }
    }

    /// The configuration of a scope.
    pub open spec fn scope_config(self, scope: ConfigScope, defaults: AdapterDefaults) -> RuntimeOverrides {
        match scope {
            ConfigScope::User => as_overrides(self.user_settings(defaults)),
            ConfigScope::Workspace(id) => if self.workspace_overrides.dom().contains(
                workspace_key(id),
            ) {
                self.workspace_overrides[workspace_key(id)]
            } else {
                RuntimeOverrides::none()
            },
            ConfigScope::Session(id) => if self.session_overrides.dom().contains(session_key(id)) {
                self.session_overrides[session_key(id)]
            } else {
                RuntimeOverrides::none()
            },
        }
    }

    /// The store with the configuration of a scope changed.
    pub open spec fn with_config(
        self,
        scope: ConfigScope,
        change: ConfigChange,
        defaults: AdapterDefaults,
    ) -> StoreView {
        match scope {
            ConfigScope::User => StoreView {
                settings: Some(changed_settings(self.user_settings(defaults), change, defaults)),
                ..self
            },
            ConfigScope::Workspace(id) => StoreView {
                workspace_overrides: self.workspace_overrides.insert(
                    workspace_key(id),
                    changed_overrides(self.scope_config(scope, defaults), change),
                ),
                ..self
            },
            ConfigScope::Session(id) => StoreView {
                session_overrides: self.session_overrides.insert(
                    session_key(id),
                    changed_overrides(self.scope_config(scope, defaults), change),
                ),
                ..self
            },
        }
    }
}

/// Whether saving a profile gives this store.
pub open spec fn keeps_profile(
    before: StoreView,
    profile: ProfileView,
    after: StoreView,
) -> bool {
    exists|offered: Seq<ProfileView>|
        {
            &&& before.offers(offered)
            &&& after == (StoreView {
                profiles: Some(#[trigger] with_profile(offered, profile)),
                ..before
            })
        }
}

impl DataStore {
    /// The user's settings.
    pub fn global_settings(&self, defaults: AdapterDefaults) -> (r: RuntimeSettings)
        requires
            defaults.usable(),
        ensures
            r == self@.user_settings(defaults),
    {
        match &self.settings {
            Some(settings) => settings.clone(),
            None => RuntimeSettings::defaults(defaults.limits, defaults.tools),
        }
    }

    /// The configuration of a scope.
    pub fn config(&self, scope: ConfigScope, defaults: AdapterDefaults) -> (r: RuntimeOverrides)
        requires
            defaults.usable(),
        ensures
            r == self@.scope_config(scope, defaults),
    {
        match scope {
            ConfigScope::User => settings_as_overrides(&self.global_settings(defaults)),
            ConfigScope::Workspace(id) => match self.workspace_overrides.get(
                &make_workspace_key(id),
            ) {
                Some(overrides) => overrides.clone(),
                None => RuntimeOverrides::default(),
            },
            ConfigScope::Session(id) => match self.session_overrides.get(&make_session_key(id)) {
                Some(overrides) => overrides.clone(),
                None => RuntimeOverrides::default(),
            },
        }
    }

    /// Changes the configuration of a scope and returns it.
    pub fn update_config(
        &mut self,
        scope: ConfigScope,
        change: ConfigChange,
        defaults: AdapterDefaults,
    ) -> (r: RuntimeOverrides)
        requires
            defaults.usable(),
        ensures
            final(self)@ == old(self)@.with_config(scope, change, defaults),
            r == final(self)@.scope_config(scope, defaults),
    {
        let ghost start = self@;
        let r = match scope {
            ConfigScope::User => {
                let mut settings = self.global_settings(defaults.clone());
                apply_settings_change(&mut settings, change, defaults);
                let overrides = settings_as_overrides(&settings);
                self.settings = Some(settings);
                overrides
            },
            ConfigScope::Workspace(id) => {
                let mut overrides = self.config(scope, defaults);
                apply_override_change(&mut overrides, change);
                self.workspace_overrides.put(make_workspace_key(id), overrides.clone());
                overrides
            },
            ConfigScope::Session(id) => {
                let mut overrides = self.config(scope, defaults);
                apply_override_change(&mut overrides, change);
                self.session_overrides.put(make_session_key(id), overrides.clone());
                overrides
            },
        };
        proof {
            assert(self@ =~= start.with_config(scope, change, defaults));
        }
        r
    }

    /// The user's profiles.
    pub fn profiles(&self) -> (r: Vec<Profile>)
        ensures
            self@.offers(profile_views(r@)),
    {
        match &self.profiles {
            Some(profiles) => copy_profiles(profiles),
            None => {
                let mut r: Vec<Profile> = Vec::new();
                r.push(Profile::chatgpt());
                proof {
                    assert(profile_views(r@)[0] == r@[0]@);
                }
                r
            },
        }
    }

    /// Saves a profile: in place of the one with its name, else behind all.
    pub fn save_profile(&mut self, profile: Profile)
        ensures
            keeps_profile(old(self)@, profile@, final(self)@),
    {
        let ghost start = self@;
        let mut profiles = self.profiles();
        let ghost before = profile_views(profiles@);
        let ghost value = profile@;
        upsert_profile(&mut profiles, profile);
        self.profiles = Some(profiles);
        proof {
            assert(self@ =~= (StoreView {
                profiles: Some(with_profile(before, value)),
                ..start
            }));
        }
    }
}

/// Whether deleting a profile gives this store.
pub open spec fn drops_profile(
    before: StoreView,
    id: Seq<char>,
    after: StoreView,
) -> bool {
    exists|offered: Seq<ProfileView>|
        before.offers(offered) && after == (StoreView {
            profiles: Some(#[trigger] without_profile(offered, id)),
            ..before
        })
}

impl DataStore {
    /// Deletes the profiles with a name.
    pub fn delete_profile(&mut self, id: &ProfileId)
        ensures
            drops_profile(old(self)@, id@, final(self)@),
    {
        let ghost start = self@;
        let profiles = self.profiles();
        let ghost views = profile_views(profiles@);
        let ghost keep = other_than(id@);
        let mut kept: Vec<Profile> = Vec::new();
        let mut i: usize = 0;
        proof {
            lemma_filter_none(views, keep);
            assert(profile_views(kept@) =~= Seq::<ProfileView>::empty());
        }
        while i < profiles.len()
            invariant
                i <= profiles@.len(),
                views == profile_views(profiles@),
                keep == other_than(id@),
                profile_views(kept@) == views.take(i as int).filter(keep),
            decreases profiles@.len() - i,
        {
            proof {
                lemma_filter_step(views, i as int, keep);
                assert(views[i as int] == profiles@[i as int]@);
            }
            let ghost earlier = kept@;
            if !profiles[i].id.same(id) {
                kept.push(profiles[i].copy());
                proof {
                    assert(profile_views(kept@) =~= profile_views(earlier).push(views[i as int]));
                }
            }
            i = i + 1;
        }
        proof {
            lemma_take_all(views);
        }
        self.profiles = Some(kept);
        proof {
            assert(self@ =~= (StoreView {
                profiles: Some(without_profile(views, id@)),
                ..start
            }));
        }
    }
}

impl StoreView {
    /// Whether these are the profiles of the store: the saved ones, else the first ones.
    pub open spec fn offers(self, profiles: Seq<ProfileView>) -> bool {
        match self.profiles {
            Some(saved) => profiles == saved,
            None => initial_profiles(profiles),
        }
    }
}

/// A change as it takes effect in a scope: limits that the user takes back are the default ones
/// again, since no scope stands behind the user's.
pub open spec fn effective_change(
    scope: ConfigScope,
    change: ConfigChange,
    defaults: AdapterDefaults,
) -> ConfigChange {
    match (scope, change) {
        (ConfigScope::User, ConfigChange::Limits(None)) => ConfigChange::Limits(
            Some(defaults.limits),
        ),
        (ConfigScope::User, ConfigChange::Tools(None)) => ConfigChange::Tools(Some(defaults.tools)),
        _ => change,
    }
}

/// What is set in a scope is read back from it, and other scopes keep what they had.
pub proof fn law_config_write_is_read_back(
    store: StoreView,
    scope: ConfigScope,
    other: ConfigScope,
    change: ConfigChange,
    defaults: AdapterDefaults,
)
    ensures
        ({
            let after = store.with_config(scope, change, defaults);
            &&& after.scope_config(scope, defaults) == changed_overrides(
                store.scope_config(scope, defaults),
                effective_change(scope, change, defaults),
            )
            &&& other != scope ==> after.scope_config(other, defaults) == store.scope_config(
                other,
                defaults,
            )
        }),
{
}

/// Choosing a model in a scope chooses it for both roles at once, and touches nothing else there.
pub proof fn law_model_change_sets_both_roles(
    store: StoreView,
    scope: ConfigScope,
    value: Option<ModelSelection>,
    defaults: AdapterDefaults,
)
    ensures
        ({
            let before = store.scope_config(scope, defaults);
            let after = store.with_config(scope, ConfigChange::Model(value), defaults).scope_config(
                scope,
                defaults,
            );
            &&& after.worker == value
            &&& after.coordinator == value
            &&& after.limits == before.limits
            &&& after.tools == before.tools
        }),
{
}

} // verus!
