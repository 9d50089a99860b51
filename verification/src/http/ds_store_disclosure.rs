//! Checks whether an endpoint discloses a `.DS_Store` file, recognised
//! by the fixed magic number at the start of the body.
use vstd::prelude::*;
use vstd::string::*;
use crate::modules::{HttpModule, Module, ModuleName, ModuleVersion};
use crate::report::{Finding, ModuleResult, Severity};

verus! {

/// The 8-byte magic number a `.DS_Store` file begins with.
pub open spec fn ds_store_signature() -> Seq<u8> {
    seq![0u8, 0u8, 0u8, 1u8, 0x42u8, 0x75u8, 0x64u8, 0x31u8]
}

/// A body is a `.DS_Store` file when its first 8 bytes equal the
/// signature; a body shorter than the signature is negative, never an
/// error.
pub open spec fn spec_is_ds_store(content: Seq<u8>) -> bool {
    content.len() >= 8 && content.subrange(0, 8) == ds_store_signature()
}

/// A byte sequence shorter than the signature never matches.
pub proof fn lemma_short_body_negative(content: Seq<u8>)
    requires
        content.len() < 8,
    ensures
        !spec_is_ds_store(content),
{
}

/// The match is decided by the first 8 bytes alone: a body beginning
/// with the signature is positive regardless of its trailing bytes,
/// and any other 8-byte prefix is negative.
pub proof fn lemma_prefix_decides(content: Seq<u8>)
    requires
        content.len() >= 8,
    ensures
        spec_is_ds_store(content) <==> content.subrange(0, 8) == ds_store_signature(),
{
}

/// Binary signature match against the `.DS_Store` magic number.
pub fn is_ds_store(content: &[u8]) -> (r: bool)
    ensures
        r == spec_is_ds_store(content@),
{
    if content.len() < 8 {
        return false;
    }
    let r = content[0] == 0x00 && content[1] == 0x00 && content[2] == 0x00 && content[3] == 0x01
        && content[4] == 0x42 && content[5] == 0x75 && content[6] == 0x64 && content[7] == 0x31;
    proof {
        let pre = content@.subrange(0, 8);
        assert(forall|k: int| 0 <= k < 8 ==> pre[k] == content@[k]);
        if r {
            assert(pre =~= ds_store_signature());
        } else {
            if pre == ds_store_signature() {
                assert(content@[0] == 0x00 && content@[1] == 0x00 && content@[2] == 0x00
                    && content@[3] == 0x01 && content@[4] == 0x42 && content@[5] == 0x75
                    && content@[6] == 0x64 && content@[7] == 0x31);
            }
        }
    }
    r
}

pub struct DsStoreDisclosure {}

impl DsStoreDisclosure {
    pub fn new() -> (r: Self)
        ensures
            r.inv(),
    {
        DsStoreDisclosure {  }
    }
}

impl Module for DsStoreDisclosure {
    open spec fn inv(&self) -> bool {
        true
    }

    open spec fn spec_name(&self) -> ModuleName {
        ModuleName::HttpDsStoreDisclosure
    }

    open spec fn spec_description(&self) -> Seq<char> {
        "Check for a .DS_Store file disclosure"@
    }

    open spec fn spec_version(&self) -> ModuleVersion {
        ModuleVersion(1, 0, 0)
    }

    open spec fn spec_aggressive(&self) -> bool {
        false
    }

    open spec fn spec_severity(&self) -> Severity {
        Severity::Medium
    }

    fn name(&self) -> ModuleName {
        ModuleName::HttpDsStoreDisclosure
    }

    fn description(&self) -> String {
        "Check for a .DS_Store file disclosure".to_owned()
    }

    fn version(&self) -> ModuleVersion {
        ModuleVersion(1, 0, 0)
    }

    fn is_aggressive(&self) -> bool {
        false
    }

    fn severity(&self) -> Severity {
        Severity::Medium
    }
}

impl HttpModule for DsStoreDisclosure {
    open spec fn spec_url(&self, endpoint: Seq<char>) -> Seq<char> {
        endpoint + "/.DS_Store"@
    }

    open spec fn positive(&self, body_bytes: Seq<u8>, body_text: Seq<char>) -> bool {
        spec_is_ds_store(body_bytes)
    }

    fn candidate_url(&self, endpoint: &str) -> String {
        endpoint.to_owned().concat("/.DS_Store")
    }

    fn classify(&self, url: String, status_success: bool, body_bytes: &[u8], body_text: &str) -> (r:
        Option<Finding>) {
        if status_success && is_ds_store(body_bytes) {
            Some(
                Finding {
                    module: ModuleName::HttpDsStoreDisclosure,
                    module_version: ModuleVersion(1, 0, 0),
                    severity: Severity::Medium,
                    result: ModuleResult::Url(url),
                },
            )
        } else {
            None
        }
    }
}

} // verus!
