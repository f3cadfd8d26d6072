# Snap Marketplace

A client for a marketplace of network services: sellers list a service with its terms
and its price, buyers purchase access tokens, and redeeming a token lets its holder in.

- `src/` is the verified library: wallets, addresses, the binary format of on-chain
  objects, search and purchase rules, the Move calls, and who is let in.
- `app/` is the command line around it: configuration, network and clock.
- `tests/` runs the library on concrete values.

To see it at work, run `marketplace-cli service-provider`: it creates a listing that
advertises its address, listens for redemption events and records the IP addresses of
buyers. Then run `marketplace-cli client <LISTING_ID>`: it buys and redeems the listing,
and connects to the server, which answers `authorized`.
