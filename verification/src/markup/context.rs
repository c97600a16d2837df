//! Per-render state threaded through the render tree.
use vstd::prelude::*;
use crate::strmap::StrMap;
use crate::text::{str_eq, to_owned_string};

verus! {

/// A permission list grants `perm` when it holds `perm` itself or `admin`.
pub open spec fn grants(perms: Seq<Seq<char>>, perm: Seq<char>) -> bool {
    exists|i: int| 0 <= i < perms.len() && (perms[i] == perm || perms[i] == "admin"@)
}

/// The views of a list of strings.
pub open spec fn strings_view(v: Seq<String>) -> Seq<Seq<char>> {
    v.map_values(|s: String| s@)
}

/// Whether `perms` holds `perm` or `admin`.
pub fn has_permission_in(perms: &Vec<String>, perm: &str) -> (b: bool)
    ensures
        b == grants(strings_view(perms@), perm@),
{
    let ghost pv = strings_view(perms@);
    let mut i: usize = 0;
    while i < perms.len()
        invariant
            i <= perms@.len(),
            pv == strings_view(perms@),
            forall|j: int| 0 <= j < i ==> !(pv[j] == perm@ || pv[j] == "admin"@),
        decreases perms@.len() - i,
    {
        if str_eq(perms[i].as_str(), perm) || str_eq(perms[i].as_str(), "admin") {
            assert(pv[i as int] == perms@[i as int]@);
            return true;
        }
        i = i + 1;
    }
    false
}

/// Threading state through the render tree without global state.
#[derive(Clone)]
pub struct RenderContext {
    pub nonce: Option<String>,
    pub base_url: String,
    pub lang: String,
    pub debug: bool,
    pub user_id: Option<String>,
    pub permissions: Vec<String>,
    pub data: StrMap,
}

/// The default context: no nonce, empty base URL and language, not in debug
/// mode, no user, no permissions and no data.
pub open spec fn is_default_context(c: RenderContext) -> bool {
    &&& c.nonce is None
    &&& c.base_url@ == Seq::<char>::empty()
    &&& c.lang@ == Seq::<char>::empty()
    &&& !c.debug
    &&& c.user_id is None
    &&& c.permissions@.len() == 0
    &&& forall|k: Seq<char>| c.data_get(k) is None
}

impl RenderContext {
    /// The value stored under `key` with `set`.
    pub closed spec fn data_get(&self, key: Seq<char>) -> Option<Seq<char>> {
        self.data.get_spec(key)
    }

    pub fn new() -> (c: Self)
        ensures
            is_default_context(c),
    {
        RenderContext {
            nonce: None,
            base_url: String::new(),
            lang: String::new(),
            debug: false,
            user_id: None,
            permissions: Vec::new(),
            data: StrMap::new(),
        }
    }

    pub fn with_nonce(self, nonce: String) -> (c: Self)
        ensures
            c.nonce == Some(nonce),
            c.base_url == self.base_url,
            c.lang == self.lang,
            c.debug == self.debug,
            c.user_id == self.user_id,
            c.permissions == self.permissions,
            forall|k: Seq<char>| c.data_get(k) == self.data_get(k),
    {
        RenderContext { nonce: Some(nonce), ..self }
    }

    pub fn with_base_url(self, url: String) -> (c: Self)
        ensures
            c.base_url == url,
            c.nonce == self.nonce,
            c.lang == self.lang,
            c.debug == self.debug,
            c.user_id == self.user_id,
            c.permissions == self.permissions,
            forall|k: Seq<char>| c.data_get(k) == self.data_get(k),
    {
        RenderContext { base_url: url, ..self }
    }

    pub fn with_lang(self, lang: String) -> (c: Self)
        ensures
            c.lang == lang,
            c.nonce == self.nonce,
            c.base_url == self.base_url,
            c.debug == self.debug,
            c.user_id == self.user_id,
            c.permissions == self.permissions,
            forall|k: Seq<char>| c.data_get(k) == self.data_get(k),
    {
        RenderContext { lang, ..self }
    }

    pub fn with_user(self, user_id: String, perms: Vec<String>) -> (c: Self)
        ensures
            c.user_id == Some(user_id),
            c.permissions == perms,
            c.nonce == self.nonce,
            c.base_url == self.base_url,
            c.lang == self.lang,
            c.debug == self.debug,
            forall|k: Seq<char>| c.data_get(k) == self.data_get(k),
    {
        RenderContext { user_id: Some(user_id), permissions: perms, ..self }
    }

    pub fn set(&mut self, key: &str, value: String)
        ensures
            forall|k: Seq<char>| #[trigger] final(self).data_get(k) == if k == key@ { Some(value@) } else { old(self).data_get(k) },
            final(self).nonce == old(self).nonce,
            final(self).base_url == old(self).base_url,
            final(self).lang == old(self).lang,
            final(self).debug == old(self).debug,
            final(self).user_id == old(self).user_id,
            final(self).permissions == old(self).permissions,
    {
        self.data.insert(to_owned_string(key), value);
    }

    pub fn get(&self, key: &str) -> (r: Option<&str>)
        ensures
            match r {
                Some(v) => self.data_get(key@) == Some(v@),
                None => self.data_get(key@) is None,
            },
    {
        self.data.get(key)
    }

    pub fn has_permission(&self, perm: &str) -> (b: bool)
        ensures
            b == grants(strings_view(self.permissions@), perm@),
    {
        has_permission_in(&self.permissions, perm)
    }

    pub fn is_authenticated(&self) -> (b: bool)
        ensures
            b == self.user_id is Some,
    {
        self.user_id.is_some()
    }

    pub fn lang_or_default(&self) -> (s: &str)
        ensures
            s@ == if self.lang@.len() == 0 { "en"@ } else { self.lang@ },
    {
        if self.lang.as_str().is_empty() { "en" } else { self.lang.as_str() }
    }
}

impl Default for RenderContext {
    fn default() -> (c: Self)
        ensures
            is_default_context(c),
    {
        Self::new()
    }
}

} // verus!
