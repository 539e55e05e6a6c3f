//! The keyring: which signer answers for which public key.

use crate::config::ProviderConfig;
use crate::ed25519::dalek::{ed25519_public_key, ed25519_signature, SoftwareKey, SEED_LEN};
use crate::ed25519::signer::{bytes_of, Provider, Signer};
use crate::ed25519::{PublicKey, Signature};
use crate::error::Error;
use vstd::prelude::*;
use vstd::string::*;

verus! {

/// The mapping that comes of entering the pairs of `entries` one after the
/// other: where a public key occurs twice, the later signer replaces the
/// earlier.
pub open spec fn entries_map<P: Provider>(entries: Seq<(PublicKey, Signer<P>)>) -> Map<
    Seq<u8>,
    Signer<P>,
>
    decreases entries.len(),
{
    if entries.len() == 0 {
        Map::empty()
    } else {
        entries_map(entries.drop_last()).insert(entries.last().0@, entries.last().1)
    }
}

/// Whether no public key occurs twice in `entries`.
pub open spec fn distinct_keys<P: Provider>(entries: Seq<(PublicKey, Signer<P>)>) -> bool {
    forall|i: int, j: int| 0 <= i < j < entries.len() ==> entries[i].0@ != entries[j].0@
}

/// The first signers of `signers`, each paired with its key from `keys`.
pub open spec fn keyed<P: Provider>(keys: Seq<PublicKey>, signers: Seq<Signer<P>>) -> Seq<
    (PublicKey, Signer<P>),
> {
    Seq::new(keys.len(), |i: int| (keys[i], signers[i]))
}

/// Whether `keys` can be the public keys that the first signers of
/// `signers` derive, in order.
pub open spec fn derived<P: Provider>(signers: Seq<Signer<P>>, keys: Seq<PublicKey>) -> bool {
    &&& keys.len() <= signers.len()
    &&& forall|i: int| 0 <= i < keys.len() ==> (#[trigger] signers[i]).may_derive(Ok(keys[i]@))
}

/// Whether building a keyring from `signers` can have the result `out`.
///
/// A keyring comes of it where every signer derives its public key: it
/// holds each signer under its key, a later one in place of an earlier one
/// with the same key. An error comes of it where a signer fails to derive
/// its key after all before it have derived theirs: it is that signer's
/// error, and no keyring is made.
pub open spec fn built_from<P: Provider>(
    signers: Seq<Signer<P>>,
    out: Result<Keyring<P>, Error>,
) -> bool {
    match out {
        Ok(keyring) => exists|keys: Seq<PublicKey>|
            #[trigger] derived(signers, keys) && keys.len() == signers.len() && keyring@
                == entries_map(keyed(keys, signers)),
        Err(error) => exists|keys: Seq<PublicKey>|
            #[trigger] derived(signers, keys) && keys.len() < signers.len()
                && signers[keys.len() as int].may_derive(Err(error)),
    }
}

/// A public key is in the mapping of `entries` exactly if it is the key of
/// one of them.
pub proof fn lemma_entries_map_domain<P: Provider>(
    entries: Seq<(PublicKey, Signer<P>)>,
    public_key: Seq<u8>,
)
    ensures
        entries_map(entries).contains_key(public_key) <==> exists|i: int|
            0 <= i < entries.len() && (#[trigger] entries[i]).0@ == public_key,
    decreases entries.len(),
{
    if entries.len() > 0 {
        let earlier = entries.drop_last();
        lemma_entries_map_domain(earlier, public_key);
        if entries_map(entries).contains_key(public_key) {
            if entries.last().0@ == public_key {
                assert(entries[entries.len() - 1].0@ == public_key);
            } else {
                let i = choose|i: int| 0 <= i < earlier.len() && (#[trigger] earlier[i]).0@
                    == public_key;
                assert(entries[i].0@ == public_key);
            }
        }
        if exists|i: int| 0 <= i < entries.len() && (#[trigger] entries[i]).0@ == public_key {
            let i = choose|i: int| 0 <= i < entries.len() && (#[trigger] entries[i]).0@
                == public_key;
            if i < entries.len() - 1 {
                assert(earlier[i].0@ == public_key);
            }
        }
    }
}

/// The last wins: the mapping of `entries` holds, under the key of an
/// entry after which that key does not occur again, the signer of that
/// entry.
pub proof fn lemma_entries_map_last_wins<P: Provider>(
    entries: Seq<(PublicKey, Signer<P>)>,
    at: int,
)
    requires
        0 <= at < entries.len(),
        forall|j: int| at < j < entries.len() ==> (#[trigger] entries[j]).0@ != entries[at].0@,
    ensures
        entries_map(entries).contains_key(entries[at].0@),
        entries_map(entries)[entries[at].0@] == entries[at].1,
    decreases entries.len(),
{
    if at < entries.len() - 1 {
        let earlier = entries.drop_last();
        assert(entries[entries.len() - 1].0@ != entries[at].0@);
        assert(earlier[at] == entries[at]);
        assert forall|j: int| at < j < earlier.len() implies (#[trigger] earlier[j]).0@
            != earlier[at].0@ by {
            assert(earlier[j] == entries[j]);
        }
        lemma_entries_map_last_wins(earlier, at);
    }
}

/// Putting a signer in the place of an entry with the same key, where no
/// key occurs twice, enters that signer under that key.
proof fn lemma_entries_map_update<P: Provider>(
    entries: Seq<(PublicKey, Signer<P>)>,
    at: int,
    public_key: PublicKey,
    signer: Signer<P>,
)
    requires
        distinct_keys(entries),
        0 <= at < entries.len(),
        entries[at].0@ == public_key@,
    ensures
        distinct_keys(entries.update(at, (public_key, signer))),
        entries_map(entries.update(at, (public_key, signer))) == entries_map(entries).insert(
            public_key@,
            signer,
        ),
    decreases entries.len(),
{
    let updated = entries.update(at, (public_key, signer));
    let earlier = entries.drop_last();
    if at == entries.len() - 1 {
        assert(updated.drop_last() =~= earlier);
        assert(entries_map(updated) =~= entries_map(entries).insert(public_key@, signer));
    } else {
        assert(updated.drop_last() =~= earlier.update(at, (public_key, signer)));
        assert(updated.last() == entries.last());
        assert(entries[at].0@ != entries[entries.len() - 1].0@);
        assert(earlier[at] == entries[at]);
        lemma_entries_map_update(earlier, at, public_key, signer);
        assert(entries_map(updated) =~= entries_map(entries).insert(public_key@, signer));
    }
}

/// The place of `public_key` among `entries`, if it has one.
fn position<P: Provider>(entries: &Vec<(PublicKey, Signer<P>)>, public_key: &PublicKey) -> (found:
    Option<usize>)
    ensures
        (match found {
            Some(at) => at < entries@.len() && entries@[at as int].0@ == public_key@,
            None => forall|i: int|
                0 <= i < entries@.len() ==> (#[trigger] entries@[i]).0@ != public_key@,
        }),
{
    let mut i: usize = 0;
    while i < entries.len()
        invariant
            i <= entries@.len(),
            forall|j: int| 0 <= j < i ==> (#[trigger] entries@[j]).0@ != public_key@,
        decreases entries@.len() - i,
    {
        if entries[i].0.same_as(public_key) {
            return Some(i);
        }
        i += 1;
    }
    None
}

/// Enters `signer` under `public_key`, in place of the signer that was
/// there, if any.
fn enter<P: Provider>(
    entries: &mut Vec<(PublicKey, Signer<P>)>,
    public_key: PublicKey,
    signer: Signer<P>,
)
    requires
        distinct_keys(old(entries)@),
    ensures
        distinct_keys(final(entries)@),
        entries_map(final(entries)@) == entries_map(old(entries)@).insert(public_key@, signer),
{
    match position(entries, &public_key) {
        Some(at) => {
            proof {
                lemma_entries_map_update(entries@, at as int, public_key, signer);
            }
            entries.set(at, (public_key, signer));
        },
        None => {
            let ghost before = entries@;
            entries.push((public_key, signer));
            assert(entries@.drop_last() =~= before);
        },
    }
}

/// The keyring: a mapping from public key to signer, made once and never
/// changed. Its view is that mapping, keyed by the bytes of the public key.
pub struct Keyring<P: Provider> {
    /// The signers with their public keys; no key occurs twice.
    keys: Vec<(PublicKey, Signer<P>)>,
}

impl<P: Provider> View for Keyring<P> {
    type V = Map<Seq<u8>, Signer<P>>;

    closed spec fn view(&self) -> Map<Seq<u8>, Signer<P>> {
        entries_map(self.keys@)
    }
}

impl<P: Provider> Keyring<P> {
    #[verifier::type_invariant]
    spec fn no_key_twice(self) -> bool {
        distinct_keys(self.keys@)
    }

    /// Whether signing `message` for `public_key` can have this result:
    /// for a key that the keyring does not hold, only `InvalidKey`; for one
    /// that it holds, what the signer of that key can give.
    pub open spec fn may_sign(
        self,
        public_key: Seq<u8>,
        message: Seq<u8>,
        result: Result<Seq<u8>, Error>,
    ) -> bool {
        if self@.contains_key(public_key) {
            self@[public_key].may_sign(message, result)
        } else {
            result == Err::<Seq<u8>, Error>(Error::InvalidKey)
        }
    }

    /// The keyring of signers whose public keys are known, entered in
    /// order: where a key occurs twice, the later signer wins.
    pub fn from_entries(entries: Vec<(PublicKey, Signer<P>)>) -> (keyring: Keyring<P>)
        ensures
            keyring@ == entries_map(entries@),
    {
        let ghost all = entries@;
        let mut keys: Vec<(PublicKey, Signer<P>)> = Vec::new();
        for entry in it: entries
            invariant
                it.seq() == all,
                distinct_keys(keys@),
                entries_map(keys@) == entries_map(all.take(it.index() as int)),
        {
            let ghost n = it.index() as int;
            let (public_key, signer) = entry;
            enter(&mut keys, public_key, signer);
            assert(all.take(n + 1).drop_last() =~= all.take(n));
        }
        assert(all.take(all.len() as int) =~= all);
        Keyring { keys }
    }

    /// Create a keyring from the given vector of signer objects.
    ///
    /// Each signer derives its public key, in order. If one fails, nothing
    /// is built and its error is returned. Otherwise the keyring holds each
    /// signer under its public key; of two signers with the same key it
    /// holds the later.
    pub fn from_signers(signers: Vec<Signer<P>>) -> (out: Result<Keyring<P>, Error>)
        ensures
            built_from(signers@, out),
    {
        let ghost all = signers@;
        let ghost mut keys: Seq<PublicKey> = Seq::empty();
        let mut entries: Vec<(PublicKey, Signer<P>)> = Vec::new();
        for signer in it: signers
            invariant
                it.seq() == all,
                keys.len() == it.index(),
                derived(all, keys),
                entries@ == keyed(keys, all),
        {
            match signer.public_key() {
                Err(error) => {
                    assert(all[keys.len() as int] == signer);
                    return Err(error);
                },
                Ok(public_key) => {
                    proof {
                        assert(all[keys.len() as int] == signer);
                        keys = keys.push(public_key);
                    }
                    entries.push((public_key, signer));
                    assert(entries@ =~= keyed(keys, all));
                },
            }
        }
        Ok(Keyring::from_entries(entries))
    }

    /// Whether the keyring holds a signer for `public_key`.
    pub fn contains(&self, public_key: &PublicKey) -> (held: bool)
        ensures
            held == self@.contains_key(public_key@),
    {
        proof {
            lemma_entries_map_domain(self.keys@, public_key@);
        }
        position(&self.keys, public_key).is_some()
    }

    /// Signs `msg` with the signer of `public_key`.
    ///
    /// Fails with `InvalidKey` if the keyring holds no such key. Otherwise
    /// the signer's signature is returned, or the failure of its provider
    /// as a provider error. The keyring is the same afterwards.
    pub fn sign(&self, public_key: &PublicKey, msg: &[u8]) -> (out: Result<Signature, Error>)
        ensures
            self.may_sign(public_key@, msg@, bytes_of(out)),
            !self@.contains_key(public_key@) ==> out == Err::<Signature, Error>(Error::InvalidKey),
            self@.contains_key(public_key@) ==> !(out matches Err(Error::InvalidKey)),
    {
        proof {
            use_type_invariant(self);
            lemma_entries_map_domain(self.keys@, public_key@);
        }
        match position(&self.keys, public_key) {
            None => Err(Error::InvalidKey),
            Some(at) => {
                proof {
                    lemma_entries_map_last_wins(self.keys@, at as int);
                }
                self.keys[at].1.sign(msg)
            },
        }
    }
}

/// The name by which the software provider goes in logs.
pub open spec fn software_provider_name() -> Seq<char> {
    "dalek"@
}

/// Whether every seed of the configuration has its 32 bytes.
pub open spec fn seeds_fit(config: ProviderConfig) -> bool {
    forall|i: int| 0 <= i < config.dalek@.len() ==> (#[trigger] config.dalek@[i]).seed@.len()
        == SEED_LEN
}

/// Whether `signers` are the signers that the configuration describes: one
/// for each key of the software provider, in order, with the key's
/// identifier and seed.
pub open spec fn configured(config: ProviderConfig, signers: Seq<Signer<SoftwareKey>>) -> bool {
    &&& signers.len() == config.dalek@.len()
    &&& forall|i: int|
        0 <= i < signers.len() ==> {
            &&& (#[trigger] signers[i]).provider_name@ == software_provider_name()
            &&& signers[i].key_id@ == config.dalek@[i].key_id@
            &&& signers[i].provider@ == config.dalek@[i].seed@
        }
}

impl Keyring<SoftwareKey> {
    /// Create a keyring from the given provider configuration.
    ///
    /// Fails with a provider error if a seed does not have 32 bytes, before
    /// any key is derived. Otherwise the keyring is built, from one signer
    /// for each configured key, as `from_signers` builds it.
    pub fn from_config(config: ProviderConfig) -> (out: Result<Keyring<SoftwareKey>, Error>)
        ensures
            out is Ok <==> seeds_fit(config),
            !seeds_fit(config) ==> (out matches Err(Error::Provider(detail)) && detail@
                == SoftwareKey::seed_length_text()),
            seeds_fit(config) ==> exists|signers: Seq<Signer<SoftwareKey>>|
                configured(config, signers) && #[trigger] built_from(signers, out),
    {
        let ghost all = config.dalek@;
        let mut signers: Vec<Signer<SoftwareKey>> = Vec::new();
        for entry in it: config.dalek
            invariant
                it.seq() == all,
                all == config.dalek@,
                signers@.len() == it.index(),
                forall|i: int| 0 <= i < it.index() ==> (#[trigger] all[i]).seed@.len() == SEED_LEN,
                forall|i: int|
                    0 <= i < signers@.len() ==> {
                        &&& (#[trigger] signers@[i]).provider_name@ == software_provider_name()
                        &&& signers@[i].key_id@ == all[i].key_id@
                        &&& signers@[i].provider@ == all[i].seed@
                    },
        {
            assert(all[signers@.len() as int] == entry);
            match SoftwareKey::from_seed(entry.seed.as_slice()) {
                Err(error) => {
                    return Err(error);
                },
                Ok(key) => {
                    signers.push(Signer::new(String::from_str("dalek"), entry.key_id, key));
                },
            }
        }
        let out = Keyring::from_signers(signers);
        assert(configured(config, signers@));
        out
    }
}

/// Where a public key is in the mapping of `entries`, the signer under it
/// is the signer of an entry with that key.
pub proof fn lemma_entries_map_value<P: Provider>(
    entries: Seq<(PublicKey, Signer<P>)>,
    public_key: Seq<u8>,
)
    requires
        entries_map(entries).contains_key(public_key),
    ensures
        exists|i: int|
            0 <= i < entries.len() && (#[trigger] entries[i]).0@ == public_key
                && entries_map(entries)[public_key] == entries[i].1,
    decreases entries.len(),
{
    if entries.len() > 0 {
        if entries.last().0@ == public_key {
            assert(entries[entries.len() - 1].0@ == public_key);
        } else {
            let earlier = entries.drop_last();
            lemma_entries_map_value(earlier, public_key);
            let i = choose|i: int|
                0 <= i < earlier.len() && (#[trigger] earlier[i]).0@ == public_key
                    && entries_map(earlier)[public_key] == earlier[i].1;
            assert(entries[i].0@ == public_key);
        }
    }
}

/// Building a keyring of software keys does not fail.
pub proof fn lemma_software_keyring_is_built(
    signers: Seq<Signer<SoftwareKey>>,
    out: Result<Keyring<SoftwareKey>, Error>,
)
    requires
        built_from(signers, out),
    ensures
        out is Ok,
{
}

/// A keyring of software keys signs with the right key: where it was built
/// from `signers` and holds `public_key`, signing `message` for that key
/// gives the Ed25519 signature of `message` under the seed of one of the
/// signers, and `public_key` is the Ed25519 public key of that seed.
pub proof fn lemma_software_keyring_signs(
    signers: Seq<Signer<SoftwareKey>>,
    keyring: Keyring<SoftwareKey>,
    public_key: Seq<u8>,
    message: Seq<u8>,
    result: Result<Seq<u8>, Error>,
)
    requires
        built_from(signers, Ok(keyring)),
        keyring@.contains_key(public_key),
        keyring.may_sign(public_key, message, result),
    ensures
        exists|i: int|
            0 <= i < signers.len() && ed25519_public_key((#[trigger] signers[i]).provider@)
                == public_key && result == Ok::<Seq<u8>, Error>(
                ed25519_signature(signers[i].provider@, message),
            ),
{
    let keys = choose|keys: Seq<PublicKey>|
        #[trigger] derived(signers, keys) && keys.len() == signers.len() && keyring@
            == entries_map(keyed(keys, signers));
    let entries = keyed(keys, signers);
    lemma_entries_map_value(entries, public_key);
    let i = choose|i: int|
        0 <= i < entries.len() && (#[trigger] entries[i]).0@ == public_key && entries_map(
            entries,
        )[public_key] == entries[i].1;
    assert(signers[i].may_derive(Ok(keys[i]@)));
    assert(entries[i].1 == signers[i]);
}

} // verus!
