# trust_ledger

A verified library for two contract ledgers:

- a credential ledger, on which issuers issue verifiable credentials, delegate
  their issuance, revoke them one by one or in batches, and record revocations
  in registries;
- a reputation ledger, on which events move the scores of addresses, with a
  history, percentiles and attestations of trust.

Every operation states in its contract the ledger that it leaves behind and the
result that it returns, success and each error alike. What holds of the ledgers
as a whole, over any run of operations, is proved in the `*_laws`, `*_soundness`
and `*_runs` modules.

## Layout

- `src/`: the library.
  - `model`, `table`, `ledger`, `decimal`, `digest`, `ids`, `paging`: values,
    tables, addresses and calls, numbers as text, the host's hash function,
    identifiers, pages.
  - `credential`, `credential_store`: the records of the credential ledger and
    its state.
  - `credential_issuer`, `delegation`, `revocation`, `batch_revocation`: its
    operations.
  - `credential_soundness`, `credential_laws`, `credential_runs`: what holds of
    it at all times, from one operation to the next, and over any number of them.
  - `reputation`, `reputation_store`, `reputation_score`, `reputation_laws`,
    `reputation_runs`: the same for the reputation ledger.
- `app/`: the contracts around the library, which hold its state in a Soroban
  host's storage, ask the host for authorizations and publish events. The page
  size limits and the credential schemas come from the crate that uses it,
  through the trait `Services`.
- `tests/`: examples of every operation.

## Published and working scores

An update returns the working score of the address. It is the published score,
which never exceeds the highest score once an event has been counted, in every
case but one: where the highest score is below the base score, an address begins
above it. Its published score is capped at the first event, while its working
score, and so the result of each update, moves from the base score without that
limit until it is no longer above the highest score. From then on both are
capped, and they meet when both reach the highest score or zero.

## Authorizations and limits

An operation that needs a signature requires that the call carries it, and one
that counts requires that the counter has room. A caller outside the verified
code tests these conditions first, as `app/` does; where a condition depends on
more than a counter, a function whose name ends in `possible` tells whether it
holds.
