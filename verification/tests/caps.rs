use exokernel::caps::manager::{describe, mint, restrict, revoke, verify, CapManager};
use exokernel::caps::{CapError, CapId, Resource, Rights};

fn rwx() -> Rights {
    Rights::read().union(Rights::write()).union(Rights::execute())
}

#[test]
fn mint_verify_revoke() {
    let mut mgr = CapManager::new();
    let c = mint(&mut mgr, Resource::Memory { base: 0x1000, size: 4096 }, Rights::rw(), true);
    assert_eq!(verify(&mgr, c, Rights::read()), Ok(()));
    assert_eq!(verify(&mgr, c, Rights::write()), Ok(()));
    assert_eq!(verify(&mgr, c, Rights::execute()), Err(CapError::PermissionDenied));
    assert_eq!(revoke(&mut mgr, c), Ok(()));
    assert_eq!(verify(&mgr, c, Rights::read()), Err(CapError::Revoked));
}

#[test]
fn restrict_chain() {
    let mut mgr = CapManager::new();
    let p = mint(&mut mgr, Resource::Object(0), rwx(), true);
    let c = restrict(&mut mgr, p, Rights::read()).expect("restricting to READ succeeds");
    assert_eq!(restrict(&mut mgr, c, Rights::write()), Err(CapError::CannotEscalate));
    let q = mint(&mut mgr, Resource::Device(0x3F8), Rights::read(), false);
    assert_eq!(restrict(&mut mgr, q, Rights::read()), Err(CapError::NotDelegatable));
}

#[test]
fn identifiers_start_at_one_and_are_never_reused() {
    let mut mgr = CapManager::new();
    assert_eq!(mgr.len(), 0);
    assert!(mgr.can_mint());
    let a = mint(&mut mgr, Resource::Cpu(10), Rights::all(), true);
    let b = mint(&mut mgr, Resource::Cpu(10), Rights::all(), true);
    let c = restrict(&mut mgr, a, Rights::read()).unwrap();
    assert_eq!(a.raw(), 1);
    assert_eq!(b.raw(), 2);
    assert_eq!(c.raw(), 3);
    assert_ne!(a, b);
    assert_eq!(mgr.len(), 3);
    revoke(&mut mgr, a).unwrap();
    let d = mint(&mut mgr, Resource::Cpu(10), Rights::all(), true);
    assert_eq!(d.raw(), 4);
    assert_eq!(mgr.len(), 4);
}

#[test]
fn restrict_child_shares_resource_and_inherits_delegatable() {
    let mut mgr = CapManager::new();
    let p = mint(&mut mgr, Resource::Memory { base: 0x2000, size: 8192 }, Rights::all(), true);
    let c = restrict(&mut mgr, p, Rights::rw()).unwrap();
    assert_eq!(
        describe(&mgr, c),
        Ok((Resource::Memory { base: 0x2000, size: 8192 }, Rights::rw()))
    );
    // The child is delegatable like its parent: it can be restricted again.
    let g = restrict(&mut mgr, c, Rights::read()).unwrap();
    assert_eq!(
        describe(&mgr, g),
        Ok((Resource::Memory { base: 0x2000, size: 8192 }, Rights::read()))
    );
    // The parent is as it was.
    assert_eq!(
        describe(&mgr, p),
        Ok((Resource::Memory { base: 0x2000, size: 8192 }, Rights::all()))
    );
}

#[test]
fn restriction_never_escalates() {
    let mut mgr = CapManager::new();
    let all_sets: Vec<Rights> = (0u32..16).map(|bits| Rights { bits }).collect();
    for parent_rights in &all_sets {
        let p = mint(&mut mgr, Resource::Object(7), *parent_rights, true);
        for wanted in &all_sets {
            let before = mgr.len();
            match restrict(&mut mgr, p, *wanted) {
                Ok(c) => {
                    assert!(parent_rights.contains(*wanted));
                    let (_, child_rights) = describe(&mgr, c).unwrap();
                    assert_eq!(child_rights, *wanted);
                    assert!(parent_rights.contains(child_rights));
                    assert_eq!(mgr.len(), before + 1);
                }
                Err(e) => {
                    assert_eq!(e, CapError::CannotEscalate);
                    assert!(!parent_rights.contains(*wanted));
                    assert_eq!(mgr.len(), before);
                }
            }
        }
    }
}

#[test]
fn restrict_reports_errors_in_order() {
    let mut mgr = CapManager::new();
    let mut other = CapManager::new();
    let stranger = mint(&mut other, Resource::Object(0), Rights::all(), true);
    // Unknown to this manager.
    assert_eq!(restrict(&mut mgr, stranger, Rights::read()), Err(CapError::NotFound));
    // Revoked comes before NotDelegatable and CannotEscalate.
    let a = mint(&mut mgr, Resource::Object(0), Rights::read(), false);
    revoke(&mut mgr, a).unwrap();
    assert_eq!(restrict(&mut mgr, a, Rights::all()), Err(CapError::Revoked));
    // NotDelegatable comes before CannotEscalate.
    let b = mint(&mut mgr, Resource::Object(0), Rights::read(), false);
    assert_eq!(restrict(&mut mgr, b, Rights::all()), Err(CapError::NotDelegatable));
    let c = mint(&mut mgr, Resource::Object(0), Rights::read(), true);
    assert_eq!(restrict(&mut mgr, c, Rights::all()), Err(CapError::CannotEscalate));
    assert_eq!(mgr.len(), 3);
}

#[test]
fn revocation_is_sticky_and_not_transitive() {
    let mut mgr = CapManager::new();
    let root = mint(&mut mgr, Resource::Object(1), Rights::all(), true);
    let child = restrict(&mut mgr, root, Rights::rw()).unwrap();
    assert_eq!(revoke(&mut mgr, root), Ok(()));
    for bits in 0u32..16 {
        assert_eq!(verify(&mgr, root, Rights { bits }), Err(CapError::Revoked));
    }
    // Whatever happens afterwards, the answer stays.
    let _ = mint(&mut mgr, Resource::Cpu(1), Rights::all(), true);
    let _ = restrict(&mut mgr, child, Rights::read()).unwrap();
    assert_eq!(revoke(&mut mgr, root), Ok(()));
    assert_eq!(verify(&mgr, root, Rights::read()), Err(CapError::Revoked));
    assert_eq!(verify(&mgr, root, Rights::empty()), Err(CapError::Revoked));
    // The derived capability is untouched.
    assert_eq!(verify(&mgr, child, Rights::rw()), Ok(()));
    // The revoked capability is still described.
    assert_eq!(describe(&mgr, root), Ok((Resource::Object(1), Rights::all())));
}

#[test]
fn fresh_capability_is_never_revoked() {
    let mut mgr = CapManager::new();
    let a = mint(&mut mgr, Resource::Device(1), Rights::empty(), false);
    assert_eq!(verify(&mgr, a, Rights::empty()), Ok(()));
    assert_eq!(verify(&mgr, a, Rights::read()), Err(CapError::PermissionDenied));
    let b = mint(&mut mgr, Resource::Device(1), Rights::all(), true);
    let c = restrict(&mut mgr, b, Rights::delete()).unwrap();
    assert_eq!(verify(&mgr, c, Rights::delete()), Ok(()));
    assert_ne!(verify(&mgr, c, Rights::read()), Err(CapError::Revoked));
}

#[test]
fn unknown_capability_is_not_found() {
    let mgr = CapManager::new();
    let mut other = CapManager::new();
    let stranger: CapId = mint(&mut other, Resource::Object(0), Rights::all(), true);
    assert_eq!(verify(&mgr, stranger, Rights::read()), Err(CapError::NotFound));
    assert_eq!(verify(&mgr, stranger, Rights::empty()), Err(CapError::NotFound));
    assert_eq!(describe(&mgr, stranger), Err(CapError::NotFound));
    let mut mgr = mgr;
    assert_eq!(revoke(&mut mgr, stranger), Err(CapError::NotFound));
    assert_eq!(mgr.len(), 0);
}

#[test]
fn rights_constants_and_subsets() {
    assert_eq!(Rights::READ, 1);
    assert_eq!(Rights::WRITE, 2);
    assert_eq!(Rights::EXECUTE, 4);
    assert_eq!(Rights::DELETE, 8);
    assert_eq!(Rights::RW, 3);
    assert_eq!(Rights::ALL, 15);
    assert_eq!(Rights::read().bits, 1);
    assert_eq!(Rights::write().bits, 2);
    assert_eq!(Rights::execute().bits, 4);
    assert_eq!(Rights::delete().bits, 8);
    assert_eq!(Rights::rw(), Rights::read().union(Rights::write()));
    assert_eq!(
        Rights::all(),
        Rights::read().union(Rights::write()).union(Rights::execute()).union(Rights::delete())
    );
    assert!(Rights::empty().is_empty());
    assert!(!Rights::read().is_empty());
    assert!(Rights::rw().contains(Rights::read()));
    assert!(Rights::rw().contains(Rights::empty()));
    assert!(!Rights::rw().contains(Rights::execute()));
    assert!(!Rights::read().contains(Rights::rw()));
    assert!(Rights::all().contains(Rights::rw()));
}

#[test]
fn subset_relation_is_an_order() {
    for a in 0u32..16 {
        let ra = Rights { bits: a };
        assert!(ra.contains(ra));
        for b in 0u32..16 {
            let rb = Rights { bits: b };
            if ra.contains(rb) && rb.contains(ra) {
                assert_eq!(ra, rb);
            }
            for c in 0u32..16 {
                let rc = Rights { bits: c };
                if ra.contains(rb) && rb.contains(rc) {
                    assert!(ra.contains(rc));
                }
            }
        }
    }
}

#[test]
fn texts_of_capability_types() {
    let mut mgr = CapManager::new();
    let a = mint(&mut mgr, Resource::Object(0), Rights::rw(), true);
    assert_eq!(a.to_text(), "Cap#1");
    for _ in 0..11 {
        mint(&mut mgr, Resource::Object(0), Rights::rw(), true);
    }
    let m = mint(&mut mgr, Resource::Object(0), Rights::rw(), true);
    assert_eq!(m.to_text(), "Cap#13");

    assert_eq!(Rights::empty().to_text(), "NONE");
    assert_eq!(Rights::read().to_text(), "R");
    assert_eq!(Rights::rw().to_text(), "RW");
    assert_eq!(Rights::all().to_text(), "RWXD");
    assert_eq!(Rights::execute().union(Rights::delete()).to_text(), "XD");
    assert_eq!(Rights { bits: 0x10 }.to_text(), "NONE");

    assert_eq!(Resource::Memory { base: 0x1000, size: 4096 }.to_text(), "Memory(0x1000+4096)");
    assert_eq!(Resource::Memory { base: 0, size: 0 }.to_text(), "Memory(0x0+0)");
    assert_eq!(Resource::Device(0x3F8).to_text(), "Device(1016)");
    assert_eq!(Resource::Object(42).to_text(), "Object(42)");
    assert_eq!(Resource::Cpu(18).to_text(), "Cpu(18 ticks)");

    assert_eq!(CapError::NotFound.message(), "cap not found");
    assert_eq!(CapError::Revoked.message(), "revoked");
    assert_eq!(CapError::PermissionDenied.message(), "permission denied");
    assert_eq!(CapError::CannotEscalate.message(), "cannot escalate");
    assert_eq!(CapError::NotDelegatable.message(), "not delegatable");
}
