//! Scanning on-chain outputs for payments this wallet can claim: one-sided
//! payments addressed to a registered script, and outputs rewindable with the
//! wallet's own rewind keys.

use vstd::prelude::*;
use crate::crypto::blake2b_of;
use crate::crypto::clone_bytes;
use crate::crypto::hash_secret_key;
use crate::crypto::shared_secret;
use crate::crypto::spec_commitment;
use crate::crypto::spec_shared_secret;
use crate::errors::OutputManagerError;
use crate::output::DbOutputV;
use crate::output::spec_output_hash;
use crate::output::spec_rewind_succeeds;
use crate::output::spec_rewound_blinding;
use crate::output::spec_rewound_value;
use crate::output::TransactionOutput;
use crate::output::TransactionOutputV;
use crate::output::UnblindedOutput;
use crate::output::UnblindedOutputV;
use crate::service::OutputManagerService;
use crate::storage::contains_commitment;
use crate::storage::KnownScriptV;
use crate::storage::KnownOneSidedPaymentScript;
use crate::storage::OutputStatus;
use crate::storage::RecordV;
use crate::storage::sum_values;

verus! {

/// The index of the first registered script equal to the given one, or a
/// negative value when none matches.
pub open spec fn spec_first_matching_script(known: Seq<KnownScriptV>, script: Seq<u8>) -> int
    decreases known.len(),
{
    if known.len() == 0 {
        -1
    } else if known.first().script == script {
        0
    } else {
        let rest = spec_first_matching_script(known.drop_first(), script);
        if rest < 0 {
            -1
        } else {
            rest + 1
        }
    }
}

/// The first match is a match, nothing before it matches, and a negative
/// result means nothing matches.
pub proof fn lemma_first_matching_characterization(known: Seq<KnownScriptV>, script: Seq<u8>)
    ensures
        ({
            let idx = spec_first_matching_script(known, script);
            &&& (idx < 0 ==> forall|j: int|
                0 <= j < known.len() ==> (#[trigger] known[j]).script != script)
            &&& (idx >= 0 ==> 0 <= idx < known.len() && known[idx].script == script && forall|
                j: int,
            |
                0 <= j < idx ==> (#[trigger] known[j]).script != script)
        }),
    decreases known.len(),
{
    if known.len() > 0 && known.first().script != script {
        lemma_first_matching_characterization(known.drop_first(), script);
        let rest = spec_first_matching_script(known.drop_first(), script);
        let idx = spec_first_matching_script(known, script);
        if rest < 0 {
            assert forall|j: int| 0 <= j < known.len() implies (#[trigger] known[j]).script
                != script by {
                if j > 0 {
                    assert(known.drop_first()[j - 1] == known[j]);
                }
            }
        } else {
            assert(known.drop_first()[rest] == known[idx]);
            assert forall|j: int| 0 <= j < idx implies (#[trigger] known[j]).script != script by {
                if j > 0 {
                    assert(known.drop_first()[j - 1] == known[j]);
                }
            }
        }
    }
}

/// The unblinded output recovered from a one-sided payment: the shared
/// secret of the registered key and the sender offset key opens the proof,
/// whose rewind keys are chained digests of that secret.
pub open spec fn spec_recovered_one_sided(k: KnownScriptV, o: TransactionOutputV)
    -> UnblindedOutputV {
    let spending = spec_shared_secret(k.private_key, o.sender_offset_public_key);
    let rewind_key = blake2b_of(spending);
    let blinding_key = blake2b_of(rewind_key);
    UnblindedOutputV {
        value: spec_rewound_value(o.proof, rewind_key, o.commitment),
        spending_key: spec_rewound_blinding(o.proof, blinding_key, o.commitment),
        features: o.features,
        script: k.script,
        input_data: k.input,
        script_private_key: k.private_key,
        sender_offset_public_key: o.sender_offset_public_key,
        metadata_signature: o.metadata_signature,
    }
}

/// Whether the one-sided rewind of an output under a registered script
/// succeeds.
pub open spec fn spec_one_sided_rewind_ok(k: KnownScriptV, o: TransactionOutputV) -> bool {
    let spending = spec_shared_secret(k.private_key, o.sender_offset_public_key);
    let rewind_key = blake2b_of(spending);
    let blinding_key = blake2b_of(rewind_key);
    spec_rewind_succeeds(o.proof, rewind_key, blinding_key, o.commitment)
}

/// The stored record a recovered output becomes: a spendable output.
pub open spec fn spec_recovered_record(uo: UnblindedOutputV) -> RecordV {
    RecordV {
        output: DbOutputV {
            output: uo,
            commitment: spec_commitment(uo.value, uo.spending_key),
            hash: spec_output_hash(uo.features, spec_commitment(uo.value, uo.spending_key), uo.script),
        },
        status: OutputStatus::Unspent,
        tx_id: None,
        abandoned: false,
    }
}

/// Whether a recovered output is actually stored: its commitment must be
/// fresh and its value representable alongside the stored total.
pub open spec fn spec_recovered_storable(records: Seq<RecordV>, rec: RecordV) -> bool {
    &&& !contains_commitment(records, rec.output.commitment)
    &&& sum_values(records) + rec.output.output.value <= u64::MAX
}

/// One pass of the one-sided payment scan: for each output whose script is
/// registered and whose proof rewinds, the recovered output is stored as
/// spendable — duplicates are ignored — and returned in order.
pub open spec fn spec_scan_one_sided_model(
    records: Seq<RecordV>,
    known: Seq<KnownScriptV>,
    outs: Seq<TransactionOutputV>,
) -> (Seq<RecordV>, Seq<UnblindedOutputV>)
    decreases outs.len(),
{
    if outs.len() == 0 {
        (records, Seq::empty())
    } else {
        let o = outs.first();
        let idx = spec_first_matching_script(known, o.script);
        if idx < 0 {
            spec_scan_one_sided_model(records, known, outs.drop_first())
        } else {
            let k = known[idx];
            if spec_one_sided_rewind_ok(k, o) {
                let uo = spec_recovered_one_sided(k, o);
                let rec = spec_recovered_record(uo);
                if spec_recovered_storable(records, rec) {
                    let (fr, ro) = spec_scan_one_sided_model(
                        records.push(rec),
                        known,
                        outs.drop_first(),
                    );
                    (fr, seq![uo] + ro)
                } else {
                    spec_scan_one_sided_model(records, known, outs.drop_first())
                }
            } else {
                spec_scan_one_sided_model(records, known, outs.drop_first())
            }
        }
    }
}

/// The views of a vector of on-chain outputs.
pub open spec fn views_of_chain_outputs(s: Seq<TransactionOutput>) -> Seq<TransactionOutputV> {
    s.map_values(|o: TransactionOutput| o@)
}

/// The views of a vector of unblinded outputs.
pub open spec fn views_of_unblinded(s: Seq<UnblindedOutput>) -> Seq<UnblindedOutputV> {
    s.map_values(|o: UnblindedOutput| o@)
}

impl OutputManagerService {
    /// The position of the first registered script equal to the given one.
    fn position_of_script(
        known: &Vec<KnownOneSidedPaymentScript>,
        script: &crate::script::TariScript,
    ) -> (r: Option<usize>)
        ensures
            ({
                let idx = spec_first_matching_script(
                    known@.map_values(|s: KnownOneSidedPaymentScript| s@),
                    script@,
                );
                match r {
                    Some(p) => idx == p && 0 <= p < known@.len(),
                    None => idx < 0,
                }
            }),
    {
        let ghost knownv = known@.map_values(|s: KnownOneSidedPaymentScript| s@);
        proof {
            lemma_first_matching_characterization(knownv, script@);
        }
        let n = known.len();
        let mut p: usize = 0;
        while p < n
            invariant
                0 <= p <= n,
                n == known@.len(),
                knownv == known@.map_values(|s: KnownOneSidedPaymentScript| s@),
                forall|j: int| 0 <= j < p ==> (#[trigger] knownv[j]).script != script@,
            decreases n - p,
        {
            if known[p].script.equals(script) {
                proof {
                    lemma_first_matching_characterization(knownv, script@);
                    let idx = spec_first_matching_script(knownv, script@);
                    assert(knownv[p as int].script == script@);
                    assert(idx >= 0);
                    assert(idx == p as int) by {
                        if idx < p as int {
                            assert(knownv[idx].script != script@);
                        }
                        if idx > p as int {
                            assert(knownv[p as int].script != script@);
                        }
                    }
                }
                return Some(p);
            }
            p += 1;
        }
        proof {
            lemma_first_matching_characterization(knownv, script@);
            let idx = spec_first_matching_script(knownv, script@);
            if idx >= 0 {
                assert(knownv[idx].script == script@);
            }
        }
        None
    }

    /// Scans on-chain outputs for one-sided payments to this wallet: for
    /// each output whose script is registered, the shared secret of the
    /// registered key and the output's sender offset key is used to rewind
    /// the range proof; recovered outputs are stored as spendable —
    /// duplicates are ignored — and returned.
    pub fn scan_outputs_for_one_sided_payments(
        &mut self,
        outputs: Vec<TransactionOutput>,
    ) -> (r: Result<Vec<UnblindedOutput>, OutputManagerError>)
        requires
            old(self).wf(),
        ensures
            final(self).wf(),
            final(self).master_key_manager == old(self).master_key_manager,
            final(self).config == old(self).config,
            final(self).db@.cipher == old(self).db@.cipher,
            final(self).db@.known_scripts == old(self).db@.known_scripts,
            r is Ok,
            ({
                let (fr, ro) = spec_scan_one_sided_model(
                    old(self).db@.records,
                    old(self).db@.known_scripts,
                    views_of_chain_outputs(outputs@),
                );
                &&& final(self).db@.records == fr
                &&& (r matches Ok(v) ==> views_of_unblinded(v@) == ro)
            }),
    {
        let known = self.db.get_all_known_one_sided_payment_scripts();
        let ghost knownv = old(self).db@.known_scripts;
        let ghost outs_v = views_of_chain_outputs(outputs@);
        let ghost rs0 = old(self).db@.records;
        let ghost fin = spec_scan_one_sided_model(rs0, knownv, outs_v);

        let mut rewound: Vec<UnblindedOutput> = Vec::new();
        proof {
            assert(outs_v.skip(0) =~= outs_v);
            assert(views_of_unblinded(rewound@) =~= Seq::<UnblindedOutputV>::empty());
            let (fr2, ro2) = spec_scan_one_sided_model(self.db@.records, knownv, outs_v);
            assert(Seq::<UnblindedOutputV>::empty() + ro2 =~= ro2);
        }
        let n = outputs.len();
        let mut i: usize = 0;
        while i < n
            invariant
                0 <= i <= n,
                n == outputs@.len(),
                self.wf(),
                self.master_key_manager == old(self).master_key_manager,
                self.config == old(self).config,
                self.chain_tip == old(self).chain_tip,
                self.base_node_set == old(self).base_node_set,
                self.last_seen_tip_height == old(self).last_seen_tip_height,
                self.db@.cipher == old(self).db@.cipher,
                self.db@.known_scripts == old(self).db@.known_scripts,
                knownv == old(self).db@.known_scripts,
                known@.map_values(|s: KnownOneSidedPaymentScript| s@) == knownv,
                outs_v == views_of_chain_outputs(outputs@),
                fin == spec_scan_one_sided_model(rs0, knownv, outs_v),
                ({
                    let (fr2, ro2) = spec_scan_one_sided_model(
                        self.db@.records,
                        knownv,
                        outs_v.skip(i as int),
                    );
                    fr2 == fin.0 && views_of_unblinded(rewound@) + ro2 == fin.1
                }),
            decreases n - i,
        {
            proof {
                assert(outs_v.skip(i as int).first() == outs_v[i as int]);
                assert(outs_v.skip(i as int).drop_first() =~= outs_v.skip(i as int + 1));
                assert(outs_v[i as int] == outputs@[i as int]@);
            }
            let o = &outputs[i];
            match Self::position_of_script(&known, &o.script) {
                None => {},
                Some(p) => {
                    let k = &known[p];
                    let spending = shared_secret(
                        k.private_key.as_slice(),
                        o.sender_offset_public_key.as_slice(),
                    );
                    let rewind_key = hash_secret_key(spending.as_slice());
                    let blinding_key = hash_secret_key(rewind_key.as_slice());
                    match o.full_rewind_range_proof(rewind_key.as_slice(), blinding_key.as_slice()) {
                        None => {},
                        Some(res) => {
                            let uo = UnblindedOutput::new(
                                res.committed_value,
                                res.blinding_factor,
                                o.features,
                                k.script.clone(),
                                k.input.clone(),
                                clone_bytes(&k.private_key),
                                clone_bytes(&o.sender_offset_public_key),
                                o.metadata_signature.clone(),
                            );
                            proof {
                                assert(knownv[p as int] == known@[p as int]@);
                                assert(uo@ == spec_recovered_one_sided(
                                    knownv[p as int],
                                    outs_v[i as int],
                                ));
                            }
                            let dbo = crate::output::DbUnblindedOutput::from_unblinded_output(
                                uo.clone(),
                            );
                            let current_total = self.db.total_value();
                            if current_total <= u64::MAX - uo.value {
                                let ghost before = self.db@.records;
                                match self.db.add_unspent_output(dbo) {
                                    Ok(()) => {
                                        proof {
                                            assert(self.db@.records =~= before.push(
                                                spec_recovered_record(uo@),
                                            ));
                                        }
                                        let ghost prev = views_of_unblinded(rewound@);
                                        rewound.push(uo);
                                        proof {
                                            assert(views_of_unblinded(rewound@) =~= prev.push(
                                                spec_recovered_one_sided(
                                                    knownv[p as int],
                                                    outs_v[i as int],
                                                ),
                                            ));
                                            let (fr2, ro2) = spec_scan_one_sided_model(
                                                before.push(spec_recovered_record(uo@)),
                                                knownv,
                                                outs_v.skip(i as int + 1),
                                            );
                                            assert(prev + (seq![
                                                spec_recovered_one_sided(
                                                    knownv[p as int],
                                                    outs_v[i as int],
                                                ),
                                            ] + ro2) =~= views_of_unblinded(rewound@) + ro2);
                                        }
                                    },
                                    Err(_) => {},
                                }
                            } else {
                            }
                        },
                    }
                },
            }
            i += 1;
        }
        proof {
            assert(outs_v.skip(n as int) =~= Seq::<TransactionOutputV>::empty());
            assert(views_of_unblinded(rewound@) + Seq::<UnblindedOutputV>::empty()
                =~= views_of_unblinded(rewound@));
        }
        Ok(rewound)
    }

    /// Scans on-chain outputs for ones rewindable with this wallet's own
    /// rewind keys, storing each recovered output as spendable — duplicates
    /// are ignored — and returning them.
    pub fn scan_for_recoverable_outputs(
        &mut self,
        outputs: Vec<TransactionOutput>,
    ) -> (r: Result<Vec<UnblindedOutput>, OutputManagerError>)
        requires
            old(self).wf(),
        ensures
            final(self).wf(),
            final(self).master_key_manager == old(self).master_key_manager,
            final(self).config == old(self).config,
            final(self).db@.cipher == old(self).db@.cipher,
            final(self).db@.known_scripts == old(self).db@.known_scripts,
            r is Ok,
            ({
                let rewind_key = crate::crypto::spec_derived_key(
                    old(self).master_key_manager@.master,
                    crate::key_manager::BRANCH_REWIND,
                    0,
                );
                let blinding_key = crate::crypto::spec_derived_key(
                    old(self).master_key_manager@.master,
                    crate::key_manager::BRANCH_BLINDING,
                    0,
                );
                let (fr, ro) = spec_recover_model(
                    old(self).db@.records,
                    rewind_key,
                    blinding_key,
                    views_of_chain_outputs(outputs@),
                );
                &&& final(self).db@.records == fr
                &&& (r matches Ok(v) ==> views_of_unblinded(v@) == ro)
            }),
    {
        let rewind = self.master_key_manager.rewind_data();
        let ghost rw = rewind.rewind_key@;
        let ghost bl = rewind.blinding_key@;
        let ghost outs_v = views_of_chain_outputs(outputs@);
        let ghost rs0 = old(self).db@.records;
        let ghost fin = spec_recover_model(rs0, rw, bl, outs_v);

        let mut rewound: Vec<UnblindedOutput> = Vec::new();
        proof {
            assert(outs_v.skip(0) =~= outs_v);
            assert(views_of_unblinded(rewound@) =~= Seq::<UnblindedOutputV>::empty());
            let (fr2, ro2) = spec_recover_model(self.db@.records, rw, bl, outs_v);
            assert(Seq::<UnblindedOutputV>::empty() + ro2 =~= ro2);
        }
        let n = outputs.len();
        let mut i: usize = 0;
        while i < n
            invariant
                0 <= i <= n,
                n == outputs@.len(),
                self.wf(),
                self.master_key_manager == old(self).master_key_manager,
                self.config == old(self).config,
                self.chain_tip == old(self).chain_tip,
                self.base_node_set == old(self).base_node_set,
                self.last_seen_tip_height == old(self).last_seen_tip_height,
                self.db@.cipher == old(self).db@.cipher,
                self.db@.known_scripts == old(self).db@.known_scripts,
                rewind.rewind_key@ == rw,
                rewind.blinding_key@ == bl,
                outs_v == views_of_chain_outputs(outputs@),
                fin == spec_recover_model(rs0, rw, bl, outs_v),
                ({
                    let (fr2, ro2) = spec_recover_model(
                        self.db@.records,
                        rw,
                        bl,
                        outs_v.skip(i as int),
                    );
                    fr2 == fin.0 && views_of_unblinded(rewound@) + ro2 == fin.1
                }),
            decreases n - i,
        {
            proof {
                assert(outs_v.skip(i as int).first() == outs_v[i as int]);
                assert(outs_v.skip(i as int).drop_first() =~= outs_v.skip(i as int + 1));
                assert(outs_v[i as int] == outputs@[i as int]@);
            }
            let o = &outputs[i];
            match o.full_rewind_range_proof(rewind.rewind_key.as_slice(), rewind.blinding_key.as_slice()) {
                None => {},
                Some(res) => {
                    let script_public_key = crate::crypto::public_key_of(
                        res.blinding_factor.as_slice(),
                    );
                    let uo = UnblindedOutput::new(
                        res.committed_value,
                        clone_bytes(&res.blinding_factor),
                        o.features,
                        crate::script::TariScript::nop(),
                        crate::script::ExecutionStack::for_public_key(&script_public_key),
                        res.blinding_factor,
                        clone_bytes(&o.sender_offset_public_key),
                        o.metadata_signature.clone(),
                    );
                    proof {
                        assert(uo@ == spec_recovered_rewound(rw, bl, outs_v[i as int]));
                    }
                    let dbo = crate::output::DbUnblindedOutput::from_unblinded_output(uo.clone());
                    let current_total = self.db.total_value();
                    if current_total <= u64::MAX - uo.value {
                        let ghost before = self.db@.records;
                        match self.db.add_unspent_output(dbo) {
                            Ok(()) => {
                                proof {
                                    assert(self.db@.records =~= before.push(
                                        spec_recovered_record(uo@),
                                    ));
                                }
                                let ghost prev = views_of_unblinded(rewound@);
                                rewound.push(uo);
                                proof {
                                    assert(views_of_unblinded(rewound@) =~= prev.push(
                                        spec_recovered_rewound(rw, bl, outs_v[i as int]),
                                    ));
                                    let (fr2, ro2) = spec_recover_model(
                                        before.push(spec_recovered_record(uo@)),
                                        rw,
                                        bl,
                                        outs_v.skip(i as int + 1),
                                    );
                                    assert(prev + (seq![
                                        spec_recovered_rewound(rw, bl, outs_v[i as int]),
                                    ] + ro2) =~= views_of_unblinded(rewound@) + ro2);
                                }
                            },
                            Err(_) => {},
                        }
                    } else {
                    }
                },
            }
            i += 1;
        }
        proof {
            assert(outs_v.skip(n as int) =~= Seq::<TransactionOutputV>::empty());
            assert(views_of_unblinded(rewound@) + Seq::<UnblindedOutputV>::empty()
                =~= views_of_unblinded(rewound@));
        }
        Ok(rewound)
    }
}

/// The unblinded output recovered by rewinding with the wallet's own keys:
/// the blinding factor doubles as the spending and script keys, under the
/// no-operation script.
pub open spec fn spec_recovered_rewound(
    rewind_key: Seq<u8>,
    blinding_key: Seq<u8>,
    o: TransactionOutputV,
) -> UnblindedOutputV {
    let blinding = spec_rewound_blinding(o.proof, blinding_key, o.commitment);
    UnblindedOutputV {
        value: spec_rewound_value(o.proof, rewind_key, o.commitment),
        spending_key: blinding,
        features: o.features,
        script: crate::script::spec_nop_script(),
        input_data: crate::crypto::spec_public_key(blinding),
        script_private_key: blinding,
        sender_offset_public_key: o.sender_offset_public_key,
        metadata_signature: o.metadata_signature,
    }
}

/// One pass of the wallet-rewind recovery: every output whose proof rewinds
/// under the wallet's keys is stored as spendable — duplicates are ignored —
/// and returned in order.
pub open spec fn spec_recover_model(
    records: Seq<RecordV>,
    rewind_key: Seq<u8>,
    blinding_key: Seq<u8>,
    outs: Seq<TransactionOutputV>,
) -> (Seq<RecordV>, Seq<UnblindedOutputV>)
    decreases outs.len(),
{
    if outs.len() == 0 {
        (records, Seq::empty())
    } else {
        let o = outs.first();
        if spec_rewind_succeeds(o.proof, rewind_key, blinding_key, o.commitment) {
            let uo = spec_recovered_rewound(rewind_key, blinding_key, o);
            let rec = spec_recovered_record(uo);
            if spec_recovered_storable(records, rec) {
                let (fr, ro) = spec_recover_model(
                    records.push(rec),
                    rewind_key,
                    blinding_key,
                    outs.drop_first(),
                );
                (fr, seq![uo] + ro)
            } else {
                spec_recover_model(records, rewind_key, blinding_key, outs.drop_first())
            }
        } else {
            spec_recover_model(records, rewind_key, blinding_key, outs.drop_first())
        }
    }
}

} // verus!
