//! Object-store URL classification: which kind of object store serves a
//! URL, decided from the URL's scheme and host alone. The store backends
//! themselves are external collaborators; this is only the selection rule.

use vstd::prelude::*;

use crate::error::KapotError;
use crate::text::str_eq;

verus! {

/// `p` is a prefix of `s`.
pub open spec fn spec_starts_with(s: Seq<char>, p: Seq<char>) -> bool {
    p.len() <= s.len() && s.subrange(0, p.len() as int) == p
}

/// Does `s` start with `prefix`?
pub fn str_starts_with(s: &str, prefix: &str) -> (r: bool)
    ensures
        r == spec_starts_with(s@, prefix@),
{
    let slen = s.unicode_len();
    let plen = prefix.unicode_len();
    if plen > slen {
        return false;
    }
    let mut i: usize = 0;
    while i < plen
        invariant
            plen <= slen,
            slen == s@.len(),
            plen == prefix@.len(),
            i <= plen,
            forall|j: int| 0 <= j < i ==> s@[j] == prefix@[j],
        decreases plen - i,
    {
        if s.get_char(i) != prefix.get_char(i) {
            proof {
                assert(s@.subrange(0, prefix@.len() as int)[i as int] != prefix@[i as int]);
            }
            return false;
        }
        i += 1;
    }
    proof {
        assert(s@.subrange(0, prefix@.len() as int) =~= prefix@);
    }
    true
}

/// The store kinds the selection rule distinguishes.
#[derive(Debug)]
pub enum ObjectStoreKind {
    /// An S3-compatible store on the named bucket; `virtual_hosted` marks
    /// the S3-compatibility mode used for OSS/OCI-style URLs.
    AmazonS3 { bucket: String, virtual_hosted: bool },
    /// An Azure store on the named container.
    MicrosoftAzure { container: String },
    /// A Google Cloud store on the named bucket.
    GoogleCloud { bucket: String },
    /// The local filesystem.
    LocalFile,
    /// No object store is available for the URL.
    Unsupported,
}

/// The URL names an S3 bucket directly.
pub open spec fn is_s3_url(url: Seq<char>) -> bool {
    spec_starts_with(url, "s3://"@) || spec_starts_with(url, "s3a://"@)
}

/// The URL names an OSS/OCI bucket reached through S3 compatibility mode.
pub open spec fn is_oss_url(url: Seq<char>) -> bool {
    spec_starts_with(url, "oss://"@) || spec_starts_with(url, "oci://"@)
}

/// The URL names an Azure container.
pub open spec fn is_azure_url(url: Seq<char>) -> bool {
    spec_starts_with(url, "azure://"@) || spec_starts_with(url, "az://"@)
}

/// The URL names a Google Cloud bucket.
pub open spec fn is_gcs_url(url: Seq<char>) -> bool {
    spec_starts_with(url, "gs://"@) || spec_starts_with(url, "gcs://"@)
}

/// The URL names the local filesystem.
pub open spec fn is_file_url(url: Seq<char>) -> bool {
    spec_starts_with(url, "file://"@)
}

/// Select an object store for a URL from its text and its host part, if
/// the URL has one: cloud schemes need a host naming the bucket or
/// container; `file://` needs none; everything else — a cloud scheme
/// without a host included — is unsupported.
pub fn select_object_store(url: &str, host: Option<&String>) -> (r: ObjectStoreKind)
    ensures
        is_s3_url(url@) ==> (match host {
            Some(h) => r matches ObjectStoreKind::AmazonS3 { bucket, virtual_hosted } && bucket@
                == h@ && !virtual_hosted,
            None => r matches ObjectStoreKind::Unsupported,
        }),
        (!is_s3_url(url@) && is_oss_url(url@)) ==> (match host {
            Some(h) => r matches ObjectStoreKind::AmazonS3 { bucket, virtual_hosted } && bucket@
                == h@ && virtual_hosted,
            None => r matches ObjectStoreKind::Unsupported,
        }),
        (!is_s3_url(url@) && !is_oss_url(url@) && is_azure_url(url@)) ==> (match host {
            Some(h) => r matches ObjectStoreKind::MicrosoftAzure { container } && container@ == h@,
            None => r matches ObjectStoreKind::Unsupported,
        }),
        (!is_s3_url(url@) && !is_oss_url(url@) && !is_azure_url(url@) && is_gcs_url(url@)) ==> (
        match host {
            Some(h) => r matches ObjectStoreKind::GoogleCloud { bucket } && bucket@ == h@,
            None => r matches ObjectStoreKind::Unsupported,
        }),
        (!is_s3_url(url@) && !is_oss_url(url@) && !is_azure_url(url@) && !is_gcs_url(url@)
            && is_file_url(url@)) ==> r matches ObjectStoreKind::LocalFile,
        (!is_s3_url(url@) && !is_oss_url(url@) && !is_azure_url(url@) && !is_gcs_url(url@)
            && !is_file_url(url@)) ==> r matches ObjectStoreKind::Unsupported,
{
    if str_starts_with(url, "s3://") || str_starts_with(url, "s3a://") {
        match host {
            Some(h) => ObjectStoreKind::AmazonS3 { bucket: h.clone(), virtual_hosted: false },
            None => ObjectStoreKind::Unsupported,
        }
    } else if str_starts_with(url, "oss://") || str_starts_with(url, "oci://") {
        match host {
            Some(h) => ObjectStoreKind::AmazonS3 { bucket: h.clone(), virtual_hosted: true },
            None => ObjectStoreKind::Unsupported,
        }
    } else if str_starts_with(url, "azure://") || str_starts_with(url, "az://") {
        match host {
            Some(h) => ObjectStoreKind::MicrosoftAzure { container: h.clone() },
            None => ObjectStoreKind::Unsupported,
        }
    } else if str_starts_with(url, "gs://") || str_starts_with(url, "gcs://") {
        match host {
            Some(h) => ObjectStoreKind::GoogleCloud { bucket: h.clone() },
            None => ObjectStoreKind::Unsupported,
        }
    } else if str_starts_with(url, "file://") {
        ObjectStoreKind::LocalFile
    } else {
        ObjectStoreKind::Unsupported
    }
}

/// A store can be selected for the URL: cloud schemes need a host, a
/// `file://` URL needs none, anything else has no store. The cases follow
/// the selection rule's branch order.
pub open spec fn spec_store_available(url: Seq<char>, has_host: bool) -> bool {
    if is_s3_url(url) {
        has_host
    } else if is_oss_url(url) {
        has_host
    } else if is_azure_url(url) {
        has_host
    } else if is_gcs_url(url) {
        has_host
    } else {
        is_file_url(url)
    }
}

/// One cached selection: the URL it was made for and the store chosen.
#[derive(Debug)]
pub struct RegisteredStore {
    pub url: String,
    pub store: ObjectStoreKind,
}

/// The index of the last store registered for the given URL, if any.
pub open spec fn registry_lookup(s: Seq<RegisteredStore>, url: Seq<char>) -> Option<int>
    decreases s.len(),
{
    if s.len() == 0 {
        None
    } else if s.last().url@ == url {
        Some(s.len() - 1)
    } else {
        registry_lookup(s.drop_last(), url)
    }
}

/// An object store registry: remembers which store serves which URL, and
/// selects one by the URL's scheme on a miss.
#[derive(Debug)]
pub struct KapotObjectStoreRegistry {
    pub stores: Vec<RegisteredStore>,
}

impl KapotObjectStoreRegistry {
    /// An empty registry.
    pub fn new() -> (r: KapotObjectStoreRegistry)
        ensures
            r.stores@.len() == 0,
    {
        KapotObjectStoreRegistry { stores: Vec::new() }
    }

    /// Register a store for a URL; later registrations win.
    pub fn register_store(&mut self, url: String, store: ObjectStoreKind)
        ensures
            final(self).stores@ == old(self).stores@.push(
                (RegisteredStore { url: url, store: store }),
            ),
    {
        self.stores.push(RegisteredStore { url, store });
    }

    /// The index of the last store registered for the URL, if any.
    pub fn lookup(&self, url: &str) -> (r: Option<usize>)
        ensures
            match registry_lookup(self.stores@, url@) {
                Some(i) => r matches Some(j) && j == i,
                None => r is None,
            },
    {
        let ghost ss = self.stores@;
        let mut i: usize = self.stores.len();
        proof {
            assert(ss.take(i as int) =~= ss);
        }
        while i > 0
            invariant
                i <= self.stores@.len(),
                ss == self.stores@,
                registry_lookup(ss, url@) == registry_lookup(ss.take(i as int), url@),
            decreases i,
        {
            i -= 1;
            proof {
                assert(ss.take(i + 1).last() == ss[i as int]);
                assert(ss.take(i + 1).drop_last() =~= ss.take(i as int));
            }
            if str_eq(self.stores[i].url.as_str(), url) {
                return Some(i);
            }
        }
        proof {
            assert(ss.take(0) =~= Seq::<RegisteredStore>::empty());
        }
        None
    }

    /// Find a store for a URL: the cached one if the URL was seen before;
    /// otherwise the scheme decides, the choice is cached, and its index
    /// is returned — unless no store is available for the URL, which is an
    /// error naming it. The registry grows only on a successful miss.
    pub fn get_store(&mut self, url: &str, host: Option<&String>) -> (r: Result<
        usize,
        KapotError,
    >)
        ensures
            match registry_lookup(old(self).stores@, url@) {
                Some(i) => r matches Ok(j) && j == i && final(self).stores@ == old(self).stores@,
                None => {
                    if spec_store_available(url@, host is Some) {
                        r matches Ok(j) && j == old(self).stores@.len() && final(self).stores@.len()
                            == old(self).stores@.len() + 1 && final(self).stores@.take(
                            old(self).stores@.len() as int,
                        ) == old(self).stores@ && final(self).stores@.last().url@ == url@
                    } else {
                        r matches Err(e) && (e matches KapotError::General(m) && m@
                            == "No object store available for: "@ + url@) && final(self).stores@
                            == old(self).stores@
                    }
                },
            },
    {
        match self.lookup(url) {
            Some(i) => Ok(i),
            None => {
                let selected = select_object_store(url, host);
                match selected {
                    ObjectStoreKind::Unsupported => Err(
                        KapotError::General(
                            String::from_str("No object store available for: ").concat(url),
                        ),
                    ),
                    store => {
                        let index = self.stores.len();
                        self.register_store(url.to_owned(), store);
                        proof {
                            assert(self.stores@.take(old(self).stores@.len() as int) =~= old(
                                self,
                            ).stores@);
                        }
                        Ok(index)
                    },
                }
            },
        }
    }
}

} // verus!
