# trade_bot

A crypto trading bot for the Backpack exchange that reads market data from
Binance. `src/` is the verified library (Verus): it builds and signs order
requests for market and limit orders, alone or in batches (signing message,
Ed25519 signature, padded Base64, headers), parses `.env`
files, assembles the configuration, formats decimal timestamps and request
addresses, and classifies logged actions. `app/` is the program around it:
HTTP, files, the environment, the clock, and the floating point indicators
(RSI, MACD, stochastic) and trading loop.
