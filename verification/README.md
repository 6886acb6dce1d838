# daofactory

Verified logic of a small set of DAO smart contracts: an access control list,
a token, a voting app, the factory that installs them, and the community
template that keeps the table of installed apps.

- `src/` is the library, verified with Verus. Each contract's storage is a
  plain state value (`AclState`, `TokenLedger`, `VotingState`, `Community`),
  each call a request, and each method states in its contract what it returns
  and how the state changes. What the chain or another contract answers during
  a call is handed in as a value (`Chain`, reply arguments), so the decisions
  are verified for every answer.
  - `strmap`: a vector-backed map keyed by text, viewed as a `Map`. It stands
    where the contracts use a `HashMap` keyed by `String`: for such a map Verus
    gives calls no usable specification (not even the length after an insert),
    so the tables are kept in a type whose every operation is proved.
  - `text`: decimal numbers and ASCII lower case, as the contracts write them.
  - `digest`: the SHA-256 and UTF-8 decoding calls behind the permission keys.
  - `acl`, `token`, `voting`, `dao`, `community`: the contracts.
- `app/` holds the entry points on the chain: reading input and storage,
  calling other contracts, and returning what the library decided.
- `tests/` runs the library on concrete cases.
