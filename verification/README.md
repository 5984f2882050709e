# anchor_amm

A constant-product automated market maker for Solana, in two parts.

- `src/` is the verified library. It decides every instruction on plain
  values: whether an AMM configuration may be created (`initialize_amm`),
  whether a pool of two mints may be created (`initialize_pool`), and what a
  liquidity deposit takes and mints (`deposit_to_pool`). `src/laws.rs` proves
  what holds across inputs and calls: deposits stay within the depositor's
  limits, never dilute existing share holders, mint all the limits allow, and
  keep the pool's balances consistent; each pair of mints has one pool.
- `app/` is the Anchor program around it: account validation, account
  storage, and the token transfers and mints that carry a deposit out.
